//! The markup-based content extractor. A unit's markup is scanned for
//! inline image tags; the text between them is reflowed to plain text, and
//! each image reference is resolved against the archive's resources through
//! an ordered fallback chain. Extraction degrades per item and never fails
//! for a unit that exists.
//!
//! The image-tag grammar, case-insensitive in names and keys: `<img` with a
//! `src=` or `srcset=` attribute, or `<image` with an `href=` or
//! `xlink:href=` attribute. The key must come at least one character after
//! the tag name and before the first `>`; its value is quoted, non-empty,
//! and runs to the next quote character; the match ends at the first `>`
//! after the value. A tag that fails these tests is skipped, and scanning
//! resumes behind each match, so matches never overlap. This scanner is
//! best-effort by design: it reads attribute spellings, not full markup.

use vstd::prelude::*;

use crate::text::{fold_ascii, fold_ascii_char};

verus! {

/// The first position at or after `from` holding `c`, or the length.
pub open spec fn find_from(s: Seq<char>, from: int, c: char) -> int
    decreases s.len() - from,
{
    if from < 0 || from >= s.len() {
        s.len() as int
    } else if s[from] == c {
        from
    } else {
        find_from(s, from + 1, c)
    }
}

/// `find_from` stays within `[from, len]` and marks the first occurrence.
pub proof fn lemma_find_from(s: Seq<char>, from: int, c: char)
    requires
        0 <= from <= s.len(),
    ensures
        from <= find_from(s, from, c) <= s.len(),
        find_from(s, from, c) < s.len() ==> s[find_from(s, from, c)] == c,
        forall|j: int| from <= j < find_from(s, from, c) ==> s[j] != c,
    decreases s.len() - from,
{
    if from < s.len() && s[from] != c {
        lemma_find_from(s, from + 1, c);
    }
}

/// Whether `c` is a quote character.
pub open spec fn is_quote(c: char) -> bool {
    c == '"' || c == '\''
}

/// The first position at or after `from` holding a quote, or the length.
pub open spec fn find_quote(s: Seq<char>, from: int) -> int
    decreases s.len() - from,
{
    if from < 0 || from >= s.len() {
        s.len() as int
    } else if is_quote(s[from]) {
        from
    } else {
        find_quote(s, from + 1)
    }
}

pub proof fn lemma_find_quote(s: Seq<char>, from: int)
    requires
        0 <= from <= s.len(),
    ensures
        from <= find_quote(s, from) <= s.len(),
        find_quote(s, from) < s.len() ==> is_quote(s[find_quote(s, from)]),
        forall|j: int| from <= j < find_quote(s, from) ==> !is_quote(s[j]),
    decreases s.len() - from,
{
    if from < s.len() && !is_quote(s[from]) {
        lemma_find_quote(s, from + 1);
    }
}

/// Whether the ASCII-folded text at `at` reads as `lit`.
pub open spec fn prefix_fold_at(s: Seq<char>, at: int, lit: Seq<char>) -> bool {
    &&& 0 <= at
    &&& at + lit.len() <= s.len()
    &&& forall|j: int| 0 <= j < lit.len() ==> fold_ascii(s[at + j]) == lit[j]
}

/// One attribute candidate at position `p`: a recognised key, `=`, a quote,
/// a non-empty run to the next quote, and a closing `>` somewhere after.
/// Yields (value start, value end, match end).
pub open spec fn attr_at(s: Seq<char>, p: int, is_image: bool) -> Option<(int, int, int)> {
    let kl: int = if !is_image && prefix_fold_at(s, p, "src="@) {
        4
    } else if !is_image && prefix_fold_at(s, p, "srcset="@) {
        7
    } else if is_image && prefix_fold_at(s, p, "href="@) {
        5
    } else if is_image && prefix_fold_at(s, p, "xlink:href="@) {
        11
    } else {
        0
    };
    if kl == 0 {
        None
    } else {
        let q0 = p + kl;
        if q0 >= s.len() || !is_quote(s[q0]) {
            None
        } else {
            let ve = find_quote(s, q0 + 1);
            if ve >= s.len() || ve == q0 + 1 {
                None
            } else {
                let gt = find_from(s, ve + 1, '>');
                if gt >= s.len() {
                    None
                } else {
                    Some((q0 + 1, ve, gt + 1))
                }
            }
        }
    }
}

/// The first attribute candidate in `[p, g)` that matches in full.
pub open spec fn find_attr(s: Seq<char>, p: int, g: int, is_image: bool) -> Option<
    (int, int, int),
>
    decreases g - p,
{
    if p >= g {
        None
    } else {
        match attr_at(s, p, is_image) {
            Some(t) => Some(t),
            None => find_attr(s, p + 1, g, is_image),
        }
    }
}

/// A tag match starting at the `<` in position `i`, with the given name
/// length and key family: the earliest full attribute after the name and
/// before the first `>`. Yields (match end, reference text).
pub open spec fn scan_attr(s: Seq<char>, i: int, name_len: int, is_image: bool) -> Option<
    (int, Seq<char>),
>
{
    let name_end = i + 1 + name_len;
    let g = find_from(s, name_end, '>');
    match find_attr(s, name_end + 1, g, is_image) {
        Some(t) => Some((t.2, s.subrange(t.0, t.1))),
        None => None,
    }
}

/// The image-tag match starting at position `i`, if any.
pub open spec fn tag_match_at(s: Seq<char>, i: int) -> Option<(int, Seq<char>)> {
    if prefix_fold_at(s, i + 1, "img"@) {
        scan_attr(s, i, 3, false)
    } else if prefix_fold_at(s, i + 1, "image"@) {
        scan_attr(s, i, 5, true)
    } else {
        None
    }
}

/// All image-tag matches at or after `from`, in order and non-overlapping:
/// (start, end, reference text) triples.
pub open spec fn scan_tags(s: Seq<char>, from: int) -> Seq<(int, int, Seq<char>)>
    decreases s.len() - from,
{
    if from < 0 || from >= s.len() {
        Seq::empty()
    } else if s[from] == '<' {
        match tag_match_at(s, from) {
            Some(m) => {
                let next = if from + 1 < m.0 && m.0 <= s.len() {
                    m.0
                } else {
                    from + 1
                };
                seq![(from, m.0, m.1)] + scan_tags(s, next)
            },
            None => scan_tags(s, from + 1),
        }
    } else {
        scan_tags(s, from + 1)
    }
}

fn prefix_fold_at_exec(cs: &Vec<char>, at: usize, lit: &Vec<char>) -> (r: bool)
    ensures
        r == prefix_fold_at(cs@, at as int, lit@),
{
    let m = lit.len();
    let n = cs.len();
    if at > n || m > n - at {
        return false;
    }
    let mut j: usize = 0;
    while j < m
        invariant
            j <= m,
            m == lit@.len(),
            n == cs@.len(),
            at + m <= n,
            forall|t: int| 0 <= t < j ==> fold_ascii(cs@[at + t]) == lit@[t],
        decreases m - j,
    {
        if fold_ascii_char(cs[at + j]) != lit[j] {
            return false;
        }
        j += 1;
    }
    true
}

fn find_from_exec(cs: &Vec<char>, from: usize, c: char) -> (r: usize)
    requires
        from <= cs@.len(),
    ensures
        r == find_from(cs@, from as int, c),
        from <= r <= cs@.len(),
{
    let n = cs.len();
    let mut i: usize = from;
    while i < n
        invariant
            from <= i <= n,
            n == cs@.len(),
            find_from(cs@, from as int, c) == find_from(cs@, i as int, c),
        decreases n - i,
    {
        if cs[i] == c {
            return i;
        }
        i += 1;
    }
    i
}

fn find_quote_exec(cs: &Vec<char>, from: usize) -> (r: usize)
    requires
        from <= cs@.len(),
    ensures
        r == find_quote(cs@, from as int),
        from <= r <= cs@.len(),
{
    let n = cs.len();
    let mut i: usize = from;
    while i < n
        invariant
            from <= i <= n,
            n == cs@.len(),
            find_quote(cs@, from as int) == find_quote(cs@, i as int),
        decreases n - i,
    {
        if cs[i] == '"' || cs[i] == '\'' {
            return i;
        }
        i += 1;
    }
    i
}

fn attr_at_exec(cs: &Vec<char>, p: usize, is_image: bool, keys: &TagKeys) -> (r: Option<
    (usize, usize, usize),
>)
    requires
        p <= cs@.len(),
        keys.wf(),
    ensures
        match r {
            Some(t) => {
                &&& attr_at(cs@, p as int, is_image) == Some(
                    (t.0 as int, t.1 as int, t.2 as int),
                )
                &&& p < t.0 <= t.1 < t.2 <= cs@.len()
            },
            None => attr_at(cs@, p as int, is_image) is None,
        },
{
    let n = cs.len();
    proof {
        reveal_strlit("src=");
        reveal_strlit("srcset=");
        reveal_strlit("href=");
        reveal_strlit("xlink:href=");
    }
    let kl: usize = if !is_image && prefix_fold_at_exec(cs, p, &keys.src) {
        4
    } else if !is_image && prefix_fold_at_exec(cs, p, &keys.srcset) {
        7
    } else if is_image && prefix_fold_at_exec(cs, p, &keys.href) {
        5
    } else if is_image && prefix_fold_at_exec(cs, p, &keys.xlink_href) {
        11
    } else {
        0
    };
    if kl == 0 {
        return None;
    }
    let q0 = p + kl;
    if q0 >= n || !(cs[q0] == '"' || cs[q0] == '\'') {
        return None;
    }
    let ve = find_quote_exec(cs, q0 + 1);
    if ve >= n || ve == q0 + 1 {
        return None;
    }
    let gt = find_from_exec(cs, ve + 1, '>');
    if gt >= n {
        return None;
    }
    Some((q0 + 1, ve, gt + 1))
}

/// The key literals of the grammar, held as character vectors.
struct TagKeys {
    img: Vec<char>,
    image: Vec<char>,
    src: Vec<char>,
    srcset: Vec<char>,
    href: Vec<char>,
    xlink_href: Vec<char>,
}

impl TagKeys {
    spec fn wf(self) -> bool {
        &&& self.img@ == "img"@
        &&& self.image@ == "image"@
        &&& self.src@ == "src="@
        &&& self.srcset@ == "srcset="@
        &&& self.href@ == "href="@
        &&& self.xlink_href@ == "xlink:href="@
    }

    fn new() -> (r: TagKeys)
        ensures
            r.wf(),
    {
        TagKeys {
            img: crate::text::chars_vec("img"),
            image: crate::text::chars_vec("image"),
            src: crate::text::chars_vec("src="),
            srcset: crate::text::chars_vec("srcset="),
            href: crate::text::chars_vec("href="),
            xlink_href: crate::text::chars_vec("xlink:href="),
        }
    }
}

fn tag_match_at_exec(cs: &Vec<char>, i: usize, keys: &TagKeys) -> (r: Option<(usize, Vec<char>)>)
    requires
        i < cs@.len(),
        keys.wf(),
    ensures
        match r {
            Some(m) => {
                &&& tag_match_at(cs@, i as int) == Some((m.0 as int, m.1@))
                &&& i < m.0 <= cs@.len()
            },
            None => tag_match_at(cs@, i as int) is None,
        },
{
    let n = cs.len();
    let (name_len, is_image): (usize, bool) = if prefix_fold_at_exec(cs, i + 1, &keys.img) {
        (3, false)
    } else if prefix_fold_at_exec(cs, i + 1, &keys.image) {
        (5, true)
    } else {
        proof {
            keys_facts();
        }
        return None;
    };
    proof {
        keys_facts();
    }
    let name_end = i + 1 + name_len;
    proof {
        assert(name_end <= n);
        lemma_find_from(cs@, name_end as int, '>');
    }
    let g = find_from_exec(cs, name_end, '>');
    if name_end >= g {
        proof {
            keys_facts();
        }
        return None;
    }
    let mut p: usize = name_end + 1;
    while p < g
        invariant
            i < n,
            name_end == i + 1 + name_len,
            name_len == 3 || name_len == 5,
            is_image <==> name_len == 5,
            name_len == 3 ==> prefix_fold_at(cs@, i + 1, "img"@),
            name_len == 5 ==> prefix_fold_at(cs@, i + 1, "image"@) && !prefix_fold_at(
                cs@,
                i + 1,
                "img"@,
            ),
            g == find_from(cs@, name_end as int, '>'),
            name_end + 1 <= p,
            p <= g + 1,
            g <= n,
            n == cs@.len(),
            keys.wf(),
            find_attr(cs@, (name_end + 1) as int, g as int, is_image) == find_attr(
                cs@,
                p as int,
                g as int,
                is_image,
            ),
        decreases g - p,
    {
        match attr_at_exec(cs, p, is_image, keys) {
            Some(t) => {
                let mut src: Vec<char> = Vec::new();
                let mut k: usize = t.0;
                while k < t.1
                    invariant
                        t.0 <= k <= t.1 <= cs@.len(),
                        src@ =~= cs@.subrange(t.0 as int, k as int),
                    decreases t.1 - k,
                {
                    src.push(cs[k]);
                    k += 1;
                    assert(src@ =~= cs@.subrange(t.0 as int, k as int));
                }
                proof {
                    keys_facts();
                    assert(src@ =~= cs@.subrange(t.0 as int, t.1 as int));
                    assert(find_attr(cs@, p as int, g as int, is_image) == Some(
                        (t.0 as int, t.1 as int, t.2 as int),
                    ));
                    assert(tag_match_at(cs@, i as int) == Some(
                        (t.2 as int, cs@.subrange(t.0 as int, t.1 as int)),
                    ));
                }
                return Some((t.2, src));
            },
            None => {
                p += 1;
            },
        }
    }
    proof {
        keys_facts();
        assert(find_attr(cs@, (name_end + 1) as int, g as int, is_image) is None);
    }
    None
}

/// The lengths of the grammar's literals.
pub proof fn keys_facts()
    ensures
        "img"@.len() == 3,
        "image"@.len() == 5,
        "src="@.len() == 4,
        "srcset="@.len() == 7,
        "href="@.len() == 5,
        "xlink:href="@.len() == 11,
{
    reveal_strlit("img");
    reveal_strlit("image");
    reveal_strlit("src=");
    reveal_strlit("srcset=");
    reveal_strlit("href=");
    reveal_strlit("xlink:href=");
}

/// The view of collected matches.
pub open spec fn match_views(ms: Seq<(usize, usize, Vec<char>)>) -> Seq<(int, int, Seq<char>)> {
    ms.map_values(|m: (usize, usize, Vec<char>)| (m.0 as int, m.1 as int, m.2@))
}

proof fn lemma_match_views_push(ms: Seq<(usize, usize, Vec<char>)>, x: (usize, usize, Vec<char>))
    ensures
        match_views(ms.push(x)) =~= match_views(ms).push((x.0 as int, x.1 as int, x.2@)),
{
    assert forall|k: int| 0 <= k < ms.len() implies match_views(ms.push(x))[k] == match_views(
        ms,
    )[k] by {
        assert(ms.push(x)[k] == ms[k]);
    }
}

/// All image-tag matches of the markup, in order.
fn scan_tags_exec(cs: &Vec<char>) -> (out: Vec<(usize, usize, Vec<char>)>)
    ensures
        match_views(out@) == scan_tags(cs@, 0),
        forall|k: int|
            0 <= k < out@.len() ==> (#[trigger] out@[k]).0 < out@[k].1 <= cs@.len(),
        forall|k: int| 0 < k < out@.len() ==> (#[trigger] out@[k]).0 >= out@[k - 1].1,
{
    let keys = TagKeys::new();
    let n = cs.len();
    let mut out: Vec<(usize, usize, Vec<char>)> = Vec::new();
    let mut i: usize = 0;
    while i < n
        invariant
            i <= n,
            n == cs@.len(),
            keys.wf(),
            scan_tags(cs@, 0) =~~= match_views(out@) + scan_tags(cs@, i as int),
            forall|k: int|
                0 <= k < out@.len() ==> (#[trigger] out@[k]).0 < out@[k].1 <= cs@.len(),
            forall|k: int| 0 < k < out@.len() ==> (#[trigger] out@[k]).0 >= out@[k - 1].1,
            forall|k: int| 0 <= k < out@.len() ==> (#[trigger] out@[k]).1 <= i,
        decreases n - i,
    {
        if cs[i] == '<' {
            match tag_match_at_exec(cs, i, &keys) {
                Some(m) => {
                    let ghost prev = out@;
                    let end = m.0;
                    out.push((i, end, m.1));
                    proof {
                        lemma_match_views_push(prev, (i, end, m.1));
                    }
                    let next = if i + 1 < end {
                        end
                    } else {
                        i + 1
                    };
                    proof {
                        assert(scan_tags(cs@, i as int) =~~= seq![(i as int, end as int, m.1@)]
                            + scan_tags(cs@, next as int));
                    }
                    i = next;
                },
                None => {
                    i += 1;
                },
            }
        } else {
            i += 1;
        }
    }
    proof {
        assert(scan_tags(cs@, n as int) =~= Seq::<(int, int, Seq<char>)>::empty());
    }
    out
}

/// One resource of the archive: its manifest id, archive path, media type
/// and raw bytes.
pub struct ResourceEntry {
    pub id: String,
    pub path: String,
    pub mime: String,
    pub bytes: Vec<u8>,
}

/// A reference with its fragment (`#...`) and query (`?...`) suffixes cut.
pub open spec fn cut_hash_query(rest: Seq<char>) -> Seq<char> {
    let a = rest.take(find_from(rest, 0, '#'));
    a.take(find_from(a, 0, '?'))
}

fn cut_hash_query_exec(rest: &Vec<char>) -> (r: Vec<char>)
    ensures
        r@ == cut_hash_query(rest@),
{
    proof {
        lemma_find_from(rest@, 0, '#');
    }
    let h = find_from_exec(rest, 0, '#');
    let mut a: Vec<char> = Vec::new();
    let mut i: usize = 0;
    while i < h
        invariant
            i <= h <= rest@.len(),
            a@ =~= rest@.take(i as int),
        decreases h - i,
    {
        a.push(rest[i]);
        i += 1;
        assert(a@ =~= rest@.take(i as int));
    }
    proof {
        assert(a@ =~= rest@.take(find_from(rest@, 0, '#')));
        lemma_find_from(a@, 0, '?');
    }
    let q = find_from_exec(&a, 0, '?');
    let mut b: Vec<char> = Vec::new();
    let mut j: usize = 0;
    while j < q
        invariant
            j <= q <= a@.len(),
            b@ =~= a@.take(j as int),
        decreases q - j,
    {
        b.push(a[j]);
        j += 1;
        assert(b@ =~= a@.take(j as int));
    }
    proof {
        assert(b@ =~= a@.take(find_from(a@, 0, '?')));
    }
    b
}

/// The position of the last `/`, or `-1`.
pub open spec fn last_slash(s: Seq<char>) -> int
    decreases s.len(),
{
    if s.len() == 0 {
        -1
    } else if s[s.len() - 1] == '/' {
        s.len() - 1
    } else {
        last_slash(s.drop_last())
    }
}

/// The trailing file name of a reference: what follows the last `/`; a bare
/// `..` (or nothing) counts as no name.
pub open spec fn filename_of(s: Seq<char>) -> Seq<char> {
    let f = s.skip(last_slash(s) + 1);
    if f == ".."@ {
        Seq::empty()
    } else {
        f
    }
}

pub fn filename_of_exec(s: &Vec<char>) -> (r: Vec<char>)
    ensures
        r@ == filename_of(s@),
{
    let n = s.len();
    let mut j: usize = n;
    proof {
        assert(s@.take(n as int) =~= s@);
    }
    while j > 0 && s[j - 1] != '/'
        invariant
            j <= n == s@.len(),
            last_slash(s@) == last_slash(s@.take(j as int)),
            forall|t: int| j <= t < n ==> s@[t] != '/',
        decreases j,
    {
        j -= 1;
        proof {
            assert(s@.take(j + 1).drop_last() =~= s@.take(j as int));
        }
    }
    proof {
        if j > 0 {
            assert(s@.take(j as int).last() == s@[j - 1]);
            assert(last_slash(s@) == j - 1);
        } else {
            assert(s@.take(0) =~= Seq::<char>::empty());
            assert(last_slash(s@) == -1);
        }
    }
    let mut f: Vec<char> = Vec::new();
    let mut i: usize = j;
    while i < n
        invariant
            j <= i <= n == s@.len(),
            f@ =~= s@.subrange(j as int, i as int),
        decreases n - i,
    {
        f.push(s[i]);
        i += 1;
        assert(f@ =~= s@.subrange(j as int, i as int));
    }
    proof {
        assert(f@ =~= s@.skip(last_slash(s@) + 1));
        reveal_strlit("..");
    }
    if f.len() == 2 && f[0] == '.' && f[1] == '.' {
        proof {
            assert(f@ =~= ".."@);
        }
        Vec::new()
    } else {
        proof {
            assert(f@ != ".."@);
        }
        f
    }
}

/// A separator that marks a `srcset`-style list.
pub open spec fn is_sep(c: char) -> bool {
    c == ',' || c == ' '
}

/// Whether the reference looks like a `srcset` list.
pub open spec fn has_sep(s: Seq<char>) -> bool {
    exists|i: int| 0 <= i < s.len() && is_sep(#[trigger] s[i])
}

/// A `srcset`-style reference reduced to its first URL: the first word of
/// the text before the first comma, when there is one.
pub open spec fn srcset_first(src: Seq<char>) -> Seq<char> {
    if !has_sep(src) {
        src
    } else {
        let chunk = src.take(find_from(src, 0, ','));
        let w = crate::text::words(chunk);
        if w.len() > 0 && w[0].len() > 0 {
            w[0]
        } else {
            src
        }
    }
}

fn srcset_first_exec(src: &Vec<char>) -> (r: Vec<char>)
    ensures
        r@ == srcset_first(src@),
{
    let n = src.len();
    let mut sep = false;
    let mut i: usize = 0;
    while i < n
        invariant
            i <= n == src@.len(),
            sep == exists|t: int| 0 <= t < i && is_sep(#[trigger] src@[t]),
        decreases n - i,
    {
        if src[i] == ',' || src[i] == ' ' {
            sep = true;
        }
        i += 1;
    }
    if !sep {
        let mut out: Vec<char> = Vec::new();
        let mut k: usize = 0;
        while k < n
            invariant
                k <= n == src@.len(),
                out@ =~= src@.take(k as int),
            decreases n - k,
        {
            out.push(src[k]);
            k += 1;
            assert(out@ =~= src@.take(k as int));
        }
        proof {
            assert(out@ =~= src@);
        }
        return out;
    }
    proof {
        lemma_find_from(src@, 0, ',');
    }
    let c = find_from_exec(src, 0, ',');
    let mut chunk: Vec<char> = Vec::new();
    let mut k: usize = 0;
    while k < c
        invariant
            k <= c <= src@.len(),
            chunk@ =~= src@.take(k as int),
        decreases c - k,
    {
        chunk.push(src[k]);
        k += 1;
        assert(chunk@ =~= src@.take(k as int));
    }
    proof {
        assert(chunk@ =~= src@.take(find_from(src@, 0, ',')));
    }
    let ws = crate::text::split_words(&chunk);
    if ws.len() > 0 {
        let first = &ws[0];
        proof {
            assert(first@ == crate::text::words(chunk@)[0]);
        }
        if first.len() > 0 {
            let mut out: Vec<char> = Vec::new();
            let mut t: usize = 0;
            while t < first.len()
                invariant
                    t <= first@.len(),
                    out@ =~= first@.take(t as int),
                decreases first@.len() - t,
            {
                out.push(first[t]);
                t += 1;
                assert(out@ =~= first@.take(t as int));
            }
            proof {
                assert(out@ =~= first@);
            }
            return out;
        }
    }
    let mut out: Vec<char> = Vec::new();
    let mut k2: usize = 0;
    while k2 < n
        invariant
            k2 <= n == src@.len(),
            out@ =~= src@.take(k2 as int),
        decreases n - k2,
    {
        out.push(src[k2]);
        k2 += 1;
        assert(out@ =~= src@.take(k2 as int));
    }
    proof {
        assert(out@ =~= src@);
    }
    out
}

/// The first resource whose archive path is `path`, searching from `i`.
pub open spec fn find_path_from(rs: Seq<ResourceEntry>, i: int, path: Seq<char>) -> Option<int>
    decreases rs.len() - i,
{
    if i < 0 || i >= rs.len() {
        None
    } else if rs[i].path@ == path {
        Some(i)
    } else {
        find_path_from(rs, i + 1, path)
    }
}

/// The first resource whose manifest id is `id`, searching from `i`.
pub open spec fn find_id_from(rs: Seq<ResourceEntry>, i: int, id: Seq<char>) -> Option<int>
    decreases rs.len() - i,
{
    if i < 0 || i >= rs.len() {
        None
    } else if rs[i].id@ == id {
        Some(i)
    } else {
        find_id_from(rs, i + 1, id)
    }
}

/// The first resource whose archive path ends with `f`, searching from `i`.
pub open spec fn find_suffix_from(rs: Seq<ResourceEntry>, i: int, f: Seq<char>) -> Option<int>
    decreases rs.len() - i,
{
    if i < 0 || i >= rs.len() {
        None
    } else if crate::text::ends_with(rs[i].path@, f) {
        Some(i)
    } else {
        find_suffix_from(rs, i + 1, f)
    }
}

/// The ordered fallback chain for an image reference: an `epub://` archive
/// path (fragment and query cut) first, then a manifest id, then a match of
/// the trailing file name against all resource paths.
pub open spec fn resolve_src(rs: Seq<ResourceEntry>, src: Seq<char>) -> Option<int> {
    let r1 = if crate::text::starts_with(src, "epub://"@) {
        find_path_from(rs, 0, cut_hash_query(src.skip(7)))
    } else {
        None
    };
    if r1 is Some {
        r1
    } else {
        let r2 = find_id_from(rs, 0, src);
        if r2 is Some {
            r2
        } else {
            let f = filename_of(src);
            if f.len() > 0 {
                find_suffix_from(rs, 0, f)
            } else {
                None
            }
        }
    }
}

fn resolve_src_exec(rs: &Vec<ResourceEntry>, src: &Vec<char>) -> (r: Option<usize>)
    ensures
        match r {
            Some(i) => resolve_src(rs@, src@) == Some(i as int) && i < rs@.len(),
            None => resolve_src(rs@, src@) is None,
        },
{
    let prefix = crate::text::chars_vec("epub://");
    proof {
        reveal_strlit("epub://");
    }
    if crate::text::starts_with_chars(src, &prefix) {
        let mut rest: Vec<char> = Vec::new();
        let mut i: usize = 7;
        proof {
            assert(src@.len() >= 7);
        }
        while i < src.len()
            invariant
                7 <= i <= src@.len(),
                rest@ =~= src@.subrange(7, i as int),
            decreases src@.len() - i,
        {
            rest.push(src[i]);
            i += 1;
            assert(rest@ =~= src@.subrange(7, i as int));
        }
        proof {
            assert(rest@ =~= src@.skip(7));
        }
        let path = cut_hash_query_exec(&rest);
        let r1 = find_path_exec(rs, &path);
        if r1.is_some() {
            return r1;
        }
    }
    let r2 = find_id_exec(rs, src);
    if r2.is_some() {
        return r2;
    }
    let f = filename_of_exec(src);
    if f.len() > 0 {
        find_suffix_exec(rs, &f)
    } else {
        None
    }
}

fn find_path_exec(rs: &Vec<ResourceEntry>, path: &Vec<char>) -> (r: Option<usize>)
    ensures
        match r {
            Some(i) => find_path_from(rs@, 0, path@) == Some(i as int) && i < rs@.len(),
            None => find_path_from(rs@, 0, path@) is None,
        },
{
    let mut i: usize = 0;
    while i < rs.len()
        invariant
            i <= rs@.len(),
            find_path_from(rs@, 0, path@) == find_path_from(rs@, i as int, path@),
        decreases rs@.len() - i,
    {
        let pv = crate::text::chars_vec(rs[i].path.as_str());
        if crate::text::chars_eq(&pv, path) {
            return Some(i);
        }
        i += 1;
    }
    None
}

fn find_id_exec(rs: &Vec<ResourceEntry>, id: &Vec<char>) -> (r: Option<usize>)
    ensures
        match r {
            Some(i) => find_id_from(rs@, 0, id@) == Some(i as int) && i < rs@.len(),
            None => find_id_from(rs@, 0, id@) is None,
        },
{
    let mut i: usize = 0;
    while i < rs.len()
        invariant
            i <= rs@.len(),
            find_id_from(rs@, 0, id@) == find_id_from(rs@, i as int, id@),
        decreases rs@.len() - i,
    {
        let pv = crate::text::chars_vec(rs[i].id.as_str());
        if crate::text::chars_eq(&pv, id) {
            return Some(i);
        }
        i += 1;
    }
    None
}

fn find_suffix_exec(rs: &Vec<ResourceEntry>, f: &Vec<char>) -> (r: Option<usize>)
    ensures
        match r {
            Some(i) => find_suffix_from(rs@, 0, f@) == Some(i as int) && i < rs@.len(),
            None => find_suffix_from(rs@, 0, f@) is None,
        },
{
    let mut i: usize = 0;
    while i < rs.len()
        invariant
            i <= rs@.len(),
            find_suffix_from(rs@, 0, f@) == find_suffix_from(rs@, i as int, f@),
        decreases rs@.len() - i,
    {
        let pv = crate::text::chars_vec(rs[i].path.as_str());
        if crate::text::ends_with_chars(&pv, f) {
            return Some(i);
        }
        i += 1;
    }
    None
}

/// What `html2text::from_read` returns for given markup at a given column
/// width, if it succeeds: a function of the markup alone.
pub uninterp spec fn reflow_of(html: Seq<char>, width: int) -> Option<Seq<char>>;

/// Relies on `html2text::from_read`: markup reflowed to plain text at the
/// given column width; deterministic in its input.
#[verifier::external_body]
fn reflow_html(html: &str, width: usize) -> (r: Option<String>)
    ensures
        match r {
            Some(t) => reflow_of(html@, width as int) == Some(t@),
            None => reflow_of(html@, width as int) is None,
        },
{
    html2text::from_read(html.as_bytes(), width).ok()
}

/// What `image::load_from_memory` reports for given bytes, if they decode:
/// the image's pixel width and height, a function of the bytes alone.
pub uninterp spec fn decoded_dims_of(bytes: Seq<u8>) -> Option<(u32, u32)>;

/// Relies on `image::load_from_memory` and the decoded image's reported
/// dimensions; deterministic in its input.
#[verifier::external_body]
fn probe_image(bytes: &Vec<u8>) -> (r: Option<(u32, u32)>)
    ensures
        match r {
            Some(d) => decoded_dims_of(bytes@) == Some(d),
            None => decoded_dims_of(bytes@) is None,
        },
{
    image::load_from_memory(bytes.as_slice()).ok().map(|img| (img.width(), img.height()))
}

/// Decodes image bytes into their dimensions and keeps the bytes; `None`
/// when they do not decode.
pub fn decode_image(bytes: Vec<u8>) -> (r: Option<crate::layout::ImageData>)
    ensures
        match r {
            Some(img) => decoded_dims_of(bytes@) == Some((img.width, img.height)) && img.bytes@
                == bytes@,
            None => decoded_dims_of(bytes@) is None,
        },
{
    match probe_image(&bytes) {
        Some((w, h)) => Some(crate::layout::ImageData { width: w, height: h, bytes }),
        None => None,
    }
}

/// A markup slice wrapped in a block context before reflowing.
pub open spec fn wrap_div(seg: Seq<char>) -> Seq<char> {
    "<div>"@ + seg + "</div>"@
}

/// The items a text slice contributes: its reflowed plain text, unless the
/// reflow fails or yields only whitespace.
pub open spec fn text_items(seg: Seq<char>) -> Seq<crate::layout::ItemV> {
    match reflow_of(wrap_div(seg), 120) {
        Some(t) => if crate::text::is_blank(t) {
            Seq::empty()
        } else {
            seq![crate::layout::ItemV::Text(t)]
        },
        None => Seq::empty(),
    }
}

/// The items one image reference contributes: the decoded image, or a
/// visible placeholder naming the reference when it cannot be resolved or
/// decoded. Extraction never aborts on a bad reference.
pub open spec fn image_items(rs: Seq<ResourceEntry>, raw: Seq<char>) -> Seq<crate::layout::ItemV> {
    let src = srcset_first(raw);
    match resolve_src(rs, src) {
        None => seq![
            crate::layout::ItemV::Text("[ Image resource not found: "@ + src + " ]"@),
        ],
        Some(i) => {
            let b = rs[i].bytes@;
            match decoded_dims_of(b) {
                Some(d) => seq![
                    crate::layout::ItemV::Image { width: d.0, height: d.1, bytes: b },
                ],
                None => seq![
                    crate::layout::ItemV::Text("[ Error decoding image: "@ + src + " ]"@),
                ],
            }
        },
    }
}

/// The items of a unit's markup from position `last` on, given the
/// remaining image-tag matches: text slices between matches, each match's
/// image, and the trailing text.
pub open spec fn items_from(
    s: Seq<char>,
    rs: Seq<ResourceEntry>,
    ms: Seq<(int, int, Seq<char>)>,
    last: int,
) -> Seq<crate::layout::ItemV>
    decreases ms.len(),
{
    if ms.len() == 0 {
        if last < s.len() {
            text_items(s.subrange(last, s.len() as int))
        } else {
            Seq::empty()
        }
    } else {
        let m = ms[0];
        (if m.0 > last {
            text_items(s.subrange(last, m.0))
        } else {
            Seq::empty()
        }) + image_items(rs, m.2) + items_from(s, rs, ms.drop_first(), m.1)
    }
}

/// The content items of one unit's markup: empty markup and markup that
/// yields nothing each degrade to a single placeholder line.
pub open spec fn chapter_items(markup: Seq<char>, rs: Seq<ResourceEntry>) -> Seq<
    crate::layout::ItemV,
> {
    if markup.len() == 0 {
        seq![crate::layout::ItemV::Text(" [ No content in this chapter ] "@)]
    } else {
        let items = items_from(markup, rs, scan_tags(markup, 0), 0);
        if items.len() == 0 {
            seq![crate::layout::ItemV::Text(" [ Chapter contains no renderable text ] "@)]
        } else {
            items
        }
    }
}

pub fn append_chars(dst: &mut Vec<char>, src: &Vec<char>)
    ensures
        final(dst)@ == old(dst)@ + src@,
{
    let mut i: usize = 0;
    while i < src.len()
        invariant
            i <= src@.len(),
            dst@ =~= old(dst)@ + src@.take(i as int),
        decreases src@.len() - i,
    {
        dst.push(src[i]);
        i += 1;
        assert(dst@ =~= old(dst)@ + src@.take(i as int));
    }
    proof {
        assert(old(dst)@ + src@.take(src@.len() as int) =~= old(dst)@ + src@);
    }
}

fn copy_bytes(b: &Vec<u8>) -> (r: Vec<u8>)
    ensures
        r@ == b@,
{
    let mut out: Vec<u8> = Vec::new();
    let mut i: usize = 0;
    while i < b.len()
        invariant
            i <= b@.len(),
            out@ =~= b@.take(i as int),
        decreases b@.len() - i,
    {
        out.push(b[i]);
        i += 1;
        assert(out@ =~= b@.take(i as int));
    }
    proof {
        assert(b@.take(b@.len() as int) =~= b@);
    }
    out
}

fn copy_range(cs: &Vec<char>, a: usize, b: usize) -> (r: Vec<char>)
    requires
        a <= b <= cs@.len(),
    ensures
        r@ == cs@.subrange(a as int, b as int),
{
    let mut out: Vec<char> = Vec::new();
    let mut i: usize = a;
    while i < b
        invariant
            a <= i <= b <= cs@.len(),
            out@ =~= cs@.subrange(a as int, i as int),
        decreases b - i,
    {
        out.push(cs[i]);
        i += 1;
        assert(out@ =~= cs@.subrange(a as int, i as int));
    }
    out
}

/// Turns one text slice of the markup into its content items.
fn emit_text(cs: &Vec<char>, a: usize, b: usize, items: &mut Vec<crate::layout::PageContent>)
    requires
        a <= b <= cs@.len(),
    ensures
        crate::layout::view_items(final(items)@) == crate::layout::view_items(old(items)@)
            + text_items(cs@.subrange(a as int, b as int)),
{
    let seg = copy_range(cs, a, b);
    let mut hv = crate::text::chars_vec("<div>");
    append_chars(&mut hv, &seg);
    let close = crate::text::chars_vec("</div>");
    append_chars(&mut hv, &close);
    proof {
        assert(hv@ == wrap_div(cs@.subrange(a as int, b as int)));
    }
    let html = crate::text::string_of(&hv);
    match reflow_html(html.as_str(), 120) {
        Some(t) => {
            if !crate::text::is_blank_str(t.as_str()) {
                let ghost prev = items@;
                let item = crate::layout::PageContent::Text(t);
                let ghost itemv = item@;
                items.push(item);
                proof {
                    crate::layout::lemma_view_items_push(prev, item);
                    assert(crate::layout::view_items(items@) =~~= crate::layout::view_items(prev)
                        + text_items(cs@.subrange(a as int, b as int)));
                }
            } else {
                proof {
                    assert(crate::layout::view_items(items@) =~~= crate::layout::view_items(
                        items@,
                    ) + text_items(cs@.subrange(a as int, b as int)));
                }
            }
        },
        None => {
            proof {
                assert(crate::layout::view_items(items@) =~~= crate::layout::view_items(items@)
                    + text_items(cs@.subrange(a as int, b as int)));
            }
        },
    }
}

/// Turns one image reference into its content items, resolving it through
/// the fallback chain.
fn emit_image(
    rs: &Vec<ResourceEntry>,
    raw: &Vec<char>,
    items: &mut Vec<crate::layout::PageContent>,
)
    ensures
        crate::layout::view_items(final(items)@) == crate::layout::view_items(old(items)@)
            + image_items(rs@, raw@),
{
    let src = srcset_first_exec(raw);
    let ghost prev = items@;
    match resolve_src_exec(rs, &src) {
        Some(i) => {
            let entry_bytes = copy_bytes(&rs[i].bytes);
            match probe_image(&entry_bytes) {
                Some((w, h)) => {
                    let item = crate::layout::PageContent::Image(
                        crate::layout::ImageData { width: w, height: h, bytes: entry_bytes },
                    );
                    items.push(item);
                    proof {
                        crate::layout::lemma_view_items_push(prev, item);
                        assert(crate::layout::view_items(items@) =~~= crate::layout::view_items(
                            prev,
                        ) + image_items(rs@, raw@));
                    }
                },
                None => {
                    let mut mv = crate::text::chars_vec("[ Error decoding image: ");
                    append_chars(&mut mv, &src);
                    let close = crate::text::chars_vec(" ]");
                    append_chars(&mut mv, &close);
                    let item = crate::layout::PageContent::Text(crate::text::string_of(&mv));
                    items.push(item);
                    proof {
                        crate::layout::lemma_view_items_push(prev, item);
                        assert(crate::layout::view_items(items@) =~~= crate::layout::view_items(
                            prev,
                        ) + image_items(rs@, raw@));
                    }
                },
            }
        },
        None => {
            let mut mv = crate::text::chars_vec("[ Image resource not found: ");
            append_chars(&mut mv, &src);
            let close = crate::text::chars_vec(" ]");
            append_chars(&mut mv, &close);
            let item = crate::layout::PageContent::Text(crate::text::string_of(&mv));
            items.push(item);
            proof {
                crate::layout::lemma_view_items_push(prev, item);
                assert(crate::layout::view_items(items@) =~~= crate::layout::view_items(prev)
                    + image_items(rs@, raw@));
            }
        },
    }
}

/// Why a unit's content cannot be extracted at all. Per-item problems never
/// surface here: they degrade to placeholder items.
#[derive(Clone, Copy, PartialEq, Eq, Structural, Debug)]
pub enum ExtractError {
    ChapterOutOfBounds,
}

/// A markup-based document (EPUB-like), modelled as plain values: the
/// spine's markup per unit (with `epub://` archive paths already written
/// into image references), the resource table, metadata and table of
/// contents. Opening the archive and reading these values out of it happens
/// outside the verified core.
pub struct EpubParser {
    pub title: Option<String>,
    pub author: Option<String>,
    pub chapters: Vec<String>,
    pub resources: Vec<ResourceEntry>,
    pub toc: Vec<String>,
    pub cover_id: Option<String>,
}

impl EpubParser {
    /// The table-of-contents labels: the stored ones, or `Chapter n` per
    /// spine item when the archive names none.
    pub open spec fn toc_labels(self) -> Seq<Seq<char>> {
        if self.toc@.len() > 0 {
            self.toc.deep_view()
        } else {
            Seq::new(self.chapters@.len(), |i: int| "Chapter "@ + crate::text::dec_digits((i + 1) as nat))
        }
    }

    /// The explicitly tagged cover image, decoded: resolved by manifest id
    /// and only kept when its bytes decode.
    pub open spec fn explicit_cover(self) -> Option<(u32, u32, Seq<u8>)> {
        match self.cover_id {
            None => None,
            Some(cid) => match find_id_from(self.resources@, 0, cid@) {
                None => None,
                Some(i) => match decoded_dims_of(self.resources@[i].bytes@) {
                    Some(d) => Some((d.0, d.1, self.resources@[i].bytes@)),
                    None => None,
                },
            },
        }
    }

    /// The title and author, with placeholders for missing metadata.
    pub fn get_metadata(&self) -> (r: (String, String))
        ensures
            r.0@ == match self.title {
                Some(t) => t@,
                None => "Unknown Title"@,
            },
            r.1@ == match self.author {
                Some(a) => a@,
                None => "Unknown Author"@,
            },
    {
        let title = match &self.title {
            Some(t) => t.clone(),
            None => "Unknown Title".to_owned(),
        };
        let author = match &self.author {
            Some(a) => a.clone(),
            None => "Unknown Author".to_owned(),
        };
        (title, author)
    }

    /// How many units the document has.
    pub fn get_chapter_count(&self) -> (r: usize)
        ensures
            r == self.chapters@.len(),
    {
        self.chapters.len()
    }

    /// The table-of-contents labels; see [`Self::toc_labels`].
    pub fn get_toc(&self) -> (r: Vec<String>)
        ensures
            r.deep_view() == self.toc_labels(),
    {
        if self.toc.len() > 0 {
            let mut out: Vec<String> = Vec::new();
            let mut i: usize = 0;
            while i < self.toc.len()
                invariant
                    i <= self.toc@.len(),
                    out.deep_view() =~~= self.toc.deep_view().take(i as int),
                decreases self.toc@.len() - i,
            {
                let ghost prev = out.deep_view();
                let s = self.toc[i].clone();
                out.push(s);
                i += 1;
                proof {
                    assert(out.deep_view() =~~= prev.push(s@));
                    assert(out.deep_view() =~~= self.toc.deep_view().take(i as int));
                }
            }
            proof {
                assert(self.toc.deep_view().take(self.toc@.len() as int) =~~= self.toc.deep_view());
            }
            out
        } else {
            let n = self.chapters.len();
            let mut out: Vec<String> = Vec::new();
            let mut i: usize = 0;
            let prefix = crate::text::chars_vec("Chapter ");
            while i < n
                invariant
                    i <= n == self.chapters@.len(),
                    self.toc@.len() == 0,
                    prefix@ == "Chapter "@,
                    out.deep_view() =~~= self.toc_labels().take(i as int),
                decreases n - i,
            {
                let ghost prev = out.deep_view();
                let num = crate::text::dec_string((i as u64) + 1);
                let mut lv: Vec<char> = Vec::new();
                append_chars(&mut lv, &prefix);
                let nv = crate::text::chars_vec(num.as_str());
                append_chars(&mut lv, &nv);
                let s = crate::text::string_of(&lv);
                out.push(s);
                i += 1;
                proof {
                    assert(out.deep_view() =~~= prev.push(s@));
                    assert(s@ == self.toc_labels()[i - 1]);
                    assert(out.deep_view() =~~= self.toc_labels().take(i as int));
                }
            }
            proof {
                assert(self.toc_labels().take(n as int) =~~= self.toc_labels());
            }
            out
        }
    }

    /// The content items of one unit. Out-of-bounds indices are the only
    /// error; everything else degrades to placeholder items.
    pub fn get_chapter_content(&self, chapter_index: usize) -> (r: Result<
        Vec<crate::layout::PageContent>,
        ExtractError,
    >)
        ensures
            (chapter_index as int) < self.chapters@.len() ==> (match r {
                Ok(v) => crate::layout::view_items(v@) == chapter_items(
                    self.chapters@[chapter_index as int]@,
                    self.resources@,
                ),
                Err(_) => false,
            }),
            (chapter_index as int) >= self.chapters@.len() ==> r == Err::<
                Vec<crate::layout::PageContent>,
                ExtractError,
            >(ExtractError::ChapterOutOfBounds),
    {
        if chapter_index >= self.chapters.len() {
            return Err(ExtractError::ChapterOutOfBounds);
        }
        let markup = &self.chapters[chapter_index];
        let cs = crate::text::chars_vec(markup.as_str());
        let ghost mk = self.chapters@[chapter_index as int]@;
        if cs.len() == 0 {
            let mut items: Vec<crate::layout::PageContent> = Vec::new();
            let item = crate::layout::PageContent::Text(
                " [ No content in this chapter ] ".to_owned(),
            );
            items.push(item);
            proof {
                crate::layout::lemma_view_items_push(Seq::empty(), item);
                assert(crate::layout::view_items(Seq::empty().push(item)) =~~= chapter_items(
                    mk,
                    self.resources@,
                ));
            }
            return Ok(items);
        }
        let ms = scan_tags_exec(&cs);
        let ghost allms = match_views(ms@);
        let mut items: Vec<crate::layout::PageContent> = Vec::new();
        let mut last: usize = 0;
        let mut k: usize = 0;
        proof {
            assert(allms.skip(0) =~= allms);
        }
        while k < ms.len()
            invariant
                k <= ms@.len(),
                allms == match_views(ms@),
                cs@ == mk,
                forall|t: int|
                    0 <= t < ms@.len() ==> (#[trigger] ms@[t]).0 < ms@[t].1 <= cs@.len(),
                forall|t: int| 0 < t < ms@.len() ==> (#[trigger] ms@[t]).0 >= ms@[t - 1].1,
                last <= cs@.len(),
                k < ms@.len() ==> last <= ms@[k as int].0,
                k == 0 ==> last == 0,
                k > 0 ==> last == ms@[k - 1].1,
                items_from(cs@, self.resources@, allms, 0) =~~= crate::layout::view_items(
                    items@,
                ) + items_from(cs@, self.resources@, allms.skip(k as int), last as int),
            decreases ms@.len() - k,
        {
            let (start, end) = (ms[k].0, ms[k].1);
            proof {
                assert(allms.skip(k as int)[0] == allms[k as int]);
                assert(allms.skip(k as int).drop_first() =~= allms.skip(k as int + 1));
            }
            if start > last {
                emit_text(&cs, last, start, &mut items);
            }
            emit_image(&self.resources, &ms[k].2, &mut items);
            last = end;
            k += 1;
            proof {
                assert(items_from(cs@, self.resources@, allms, 0) =~~= crate::layout::view_items(
                    items@,
                ) + items_from(cs@, self.resources@, allms.skip(k as int), last as int));
            }
        }
        proof {
            assert(allms.skip(ms@.len() as int) =~= Seq::<(int, int, Seq<char>)>::empty());
        }
        if last < cs.len() {
            let b = cs.len();
            emit_text(&cs, last, b, &mut items);
            proof {
                assert(cs@.subrange(last as int, cs@.len() as int) =~= cs@.subrange(
                    last as int,
                    b as int,
                ));
            }
        }
        proof {
            assert(crate::layout::view_items(items@) =~~= items_from(
                cs@,
                self.resources@,
                allms,
                0,
            ));
        }
        if items.len() == 0 {
            let item = crate::layout::PageContent::Text(
                " [ Chapter contains no renderable text ] ".to_owned(),
            );
            let ghost prev = items@;
            items.push(item);
            proof {
                crate::layout::lemma_view_items_push(prev, item);
                assert(crate::layout::view_items(prev).len() == 0);
                assert(crate::layout::view_items(items@) =~~= chapter_items(mk, self.resources@));
            }
        } else {
            proof {
                assert(crate::layout::view_items(items@).len() > 0);
                assert(crate::layout::view_items(items@) =~~= chapter_items(mk, self.resources@));
            }
        }
        Ok(items)
    }
}

/// Whether a resource looks like a cover image: an image media type whose
/// folded path suggests a cover.
pub open spec fn is_cover_candidate(e: ResourceEntry) -> bool {
    &&& crate::text::starts_with(e.mime@, "image/"@)
    &&& (crate::text::contains_seq(crate::text::lower_of(e.path@), "cover"@)
        || crate::text::contains_seq(crate::text::lower_of(e.path@), "front"@))
    &&& decoded_dims_of(e.bytes@) is Some
}

/// The pixel area of a candidate, saturating.
pub open spec fn cover_score(e: ResourceEntry) -> u32 {
    let d = decoded_dims_of(e.bytes@)->Some_0;
    if d.0 as int * d.1 as int > u32::MAX {
        u32::MAX
    } else {
        (d.0 as int * d.1 as int) as u32
    }
}

/// The candidate a forward scan from `i` settles on, starting from `cur`:
/// a later candidate replaces the current one only with a strictly larger
/// area, so the first largest candidate wins.
pub open spec fn best_cover(rs: Seq<ResourceEntry>, i: int, cur: Option<int>) -> Option<int>
    decreases rs.len() - i,
{
    if i < 0 || i >= rs.len() {
        cur
    } else {
        let better = is_cover_candidate(rs[i]) && (match cur {
            None => true,
            Some(j) => cover_score(rs[j]) < cover_score(rs[i]),
        });
        best_cover(
            rs,
            i + 1,
            if better {
                Some(i)
            } else {
                cur
            },
        )
    }
}

impl EpubParser {
    /// The explicitly tagged cover image; see [`Self::explicit_cover`].
    pub fn get_cover(&self) -> (r: Option<crate::layout::ImageData>)
        ensures
            match r {
                Some(img) => self.explicit_cover() == Some((img.width, img.height, img.bytes@)),
                None => self.explicit_cover() is None,
            },
    {
        match &self.cover_id {
            None => None,
            Some(cid) => {
                let cv = crate::text::chars_vec(cid.as_str());
                match find_id_exec(&self.resources, &cv) {
                    None => None,
                    Some(i) => {
                        let bytes = copy_bytes(&self.resources[i].bytes);
                        match probe_image(&bytes) {
                            Some((w, h)) => Some(
                                crate::layout::ImageData { width: w, height: h, bytes },
                            ),
                            None => None,
                        }
                    },
                }
            },
        }
    }

    /// The cover image, best effort: the explicitly tagged cover when it
    /// exists and decodes, else the first largest image resource whose path
    /// suggests a cover; see [`best_cover`].
    pub fn get_cover_best_effort(&self) -> (r: Option<crate::layout::ImageData>)
        ensures
            self.explicit_cover() matches Some(c) ==> r matches Some(img) && (
            img.width,
            img.height,
            img.bytes@,
            ) == c,
            self.explicit_cover() is None ==> match r {
                Some(img) => {
                    &&& best_cover(self.resources@, 0, None) matches Some(j)
                    &&& decoded_dims_of(self.resources@[j].bytes@) == Some(
                        (img.width, img.height),
                    )
                    &&& img.bytes@ == self.resources@[j].bytes@
                },
                None => best_cover(self.resources@, 0, None) is None,
            },
    {
        if let Some(img) = self.get_cover() {
            return Some(img);
        }
        let cover_lit = crate::text::chars_vec("cover");
        let front_lit = crate::text::chars_vec("front");
        let image_lit = crate::text::chars_vec("image/");
        proof {
            reveal_strlit("cover");
            reveal_strlit("front");
            reveal_strlit("image/");
        }
        let n = self.resources.len();
        let mut i: usize = 0;
        let mut best: Option<(usize, u32, u32, u32)> = None;
        while i < n
            invariant
                i <= n == self.resources@.len(),
                cover_lit@ == "cover"@,
                front_lit@ == "front"@,
                image_lit@ == "image/"@,
                best_cover(self.resources@, 0, None) == best_cover(
                    self.resources@,
                    i as int,
                    match best {
                        None => None,
                        Some(b) => Some(b.0 as int),
                    },
                ),
                match best {
                    None => true,
                    Some(b) => {
                        &&& (b.0 as int) < self.resources@.len()
                        &&& is_cover_candidate(self.resources@[b.0 as int])
                        &&& b.1 == cover_score(self.resources@[b.0 as int])
                        &&& decoded_dims_of(self.resources@[b.0 as int].bytes@) == Some(
                            (b.2, b.3),
                        )
                    },
                },
            decreases n - i,
        {
            let e = &self.resources[i];
            let mv = crate::text::chars_vec(e.mime.as_str());
            let mut candidate = crate::text::starts_with_chars(&mv, &image_lit);
            if candidate {
                let lowered = crate::text::lowercase(e.path.as_str());
                let lv = crate::text::chars_vec(lowered.as_str());
                candidate = crate::text::contains_chars(&lv, &cover_lit)
                    || crate::text::contains_chars(&lv, &front_lit);
            }
            if candidate {
                match probe_image(&e.bytes) {
                    Some((w, h)) => {
                        proof {
                            assert((w as int) * (h as int) <= 0xFFFF_FFFFu64 * 0xFFFF_FFFFu64)
                                by (nonlinear_arith)
                                requires
                                    w as int <= 0xFFFF_FFFFu64,
                                    h as int <= 0xFFFF_FFFFu64,
                            ;
                        }
                        let prod = (w as u64) * (h as u64);
                        let score: u32 = if prod > 0xFFFF_FFFF {
                            0xFFFF_FFFF
                        } else {
                            prod as u32
                        };
                        proof {
                            assert(is_cover_candidate(self.resources@[i as int]));
                            assert(score == cover_score(self.resources@[i as int]));
                        }
                        let replace = match &best {
                            None => true,
                            Some(b) => b.1 < score,
                        };
                        if replace {
                            best = Some((i, score, w, h));
                        }
                    },
                    None => {
                        proof {
                            assert(!is_cover_candidate(self.resources@[i as int]));
                        }
                    },
                }
            } else {
                proof {
                    assert(!is_cover_candidate(self.resources@[i as int]));
                }
            }
            i += 1;
        }
        match best {
            None => None,
            Some(b) => {
                let bytes = copy_bytes(&self.resources[b.0].bytes);
                Some(crate::layout::ImageData { width: b.2, height: b.3, bytes })
            },
        }
    }
}

} // verus!
