//! The text conventions shared by the whole crate: which characters count as
//! whitespace, how a line is split into words, how a block is split into
//! lines, and small string helpers (joining, trimming, searching, decimal
//! formatting) with exact specifications.

use vstd::prelude::*;
use vstd::string::StrSliceExecFns;

verus! {

/// The whitespace convention shared by the extractor, the flattener and the
/// navigation code: exactly the characters `char::is_whitespace` accepts.
pub open spec fn is_space(c: char) -> bool {
    let u = c as int;
    u == 0x20 || u == 0x09 || u == 0x0A || u == 0x0B || u == 0x0C || u == 0x0D || u == 0x85
        || u == 0xA0 || u == 0x1680 || (0x2000 <= u && u <= 0x200A) || u == 0x2028 || u == 0x2029
        || u == 0x202F || u == 0x205F || u == 0x3000
}

pub fn is_space_char(c: char) -> (r: bool)
    ensures
        r == is_space(c),
{
    let u = c as u32;
    u == 0x20 || u == 0x09 || u == 0x0A || u == 0x0B || u == 0x0C || u == 0x0D || u == 0x85
        || u == 0xA0 || u == 0x1680 || (0x2000 <= u && u <= 0x200A) || u == 0x2028 || u == 0x2029
        || u == 0x202F || u == 0x205F || u == 0x3000
}

/// The words of a line: the maximal runs of non-whitespace characters, in
/// order. This is the whitespace-splitting convention every component uses.
pub open spec fn words(s: Seq<char>) -> Seq<Seq<char>>
    decreases s.len(),
{
    if s.len() == 0 {
        Seq::empty()
    } else if is_space(s[0]) {
        words(s.drop_first())
    } else {
        let rest = words(s.drop_first());
        if s.len() == 1 || is_space(s[1]) {
            seq![seq![s[0]]] + rest
        } else {
            seq![seq![s[0]] + rest[0]] + rest.drop_first()
        }
    }
}

/// Dropping a leading whitespace character leaves the words unchanged.
pub proof fn lemma_words_skip_space(s: Seq<char>)
    requires
        s.len() > 0,
        is_space(s[0]),
    ensures
        words(s) == words(s.drop_first()),
{
}

/// A line that starts with a maximal non-whitespace run of length `k`
/// contributes that run as its first word.
pub proof fn lemma_words_word_prefix(s: Seq<char>, k: int)
    requires
        0 < k <= s.len(),
        forall|j: int| 0 <= j < k ==> !is_space(s[j]),
        k == s.len() || is_space(s[k]),
    ensures
        words(s) =~~= seq![s.take(k)] + words(s.skip(k)),
    decreases k,
{
    if k == 1 {
        if s.len() == 1 {
            assert(s.take(1) =~= seq![s[0]]);
            assert(s.skip(1) =~= Seq::<char>::empty());
        } else {
            assert(is_space(s[1]));
            assert(s.take(1) =~= seq![s[0]]);
            assert(s.skip(1) =~= s.drop_first());
        }
    } else {
        let t = s.drop_first();
        assert(forall|j: int| 0 <= j < k - 1 ==> s[j + 1] == t[j] && !is_space(#[trigger] t[j]));
        lemma_words_word_prefix(t, k - 1);
        let rest = words(t);
        assert(rest =~~= seq![t.take(k - 1)] + words(t.skip(k - 1)));
        assert(rest.len() >= 1);
        assert(rest[0] == t.take(k - 1));
        assert(!is_space(s[1]));
        assert(words(s) == seq![seq![s[0]] + rest[0]] + rest.drop_first());
        assert(seq![s[0]] + t.take(k - 1) =~= s.take(k));
        assert(rest.drop_first() =~~= words(t.skip(k - 1)));
        assert(t.skip(k - 1) =~= s.skip(k));
    }
}

/// Relies on `String::push`: appends the given character to the end of the
/// string.
#[verifier::external_body]
pub fn push_char(s: &mut String, c: char)
    ensures
        final(s)@ == old(s)@.push(c),
{
    s.push(c);
}

/// The characters of a string slice, as a vector.
pub fn chars_vec(s: &str) -> (r: Vec<char>)
    ensures
        r@ == s@,
{
    let n = s.unicode_len();
    let mut out: Vec<char> = Vec::new();
    let mut i: usize = 0;
    while i < n
        invariant
            i <= n,
            n == s@.len(),
            out@ =~= s@.take(i as int),
        decreases n - i,
    {
        out.push(s.get_char(i));
        i += 1;
        assert(out@ =~= s@.take(i as int));
    }
    assert(s@.take(n as int) =~= s@);
    out
}

/// A string holding exactly the given characters.
pub fn string_of(cs: &Vec<char>) -> (r: String)
    ensures
        r@ == cs@,
{
    let mut s = String::new();
    let mut i: usize = 0;
    while i < cs.len()
        invariant
            i <= cs.len(),
            s@ =~= cs@.take(i as int),
        decreases cs.len() - i,
    {
        push_char(&mut s, cs[i]);
        i += 1;
        assert(s@ =~= cs@.take(i as int));
    }
    assert(cs@.take(cs.len() as int) =~= cs@);
    s
}

/// Splits a character sequence into its words.
pub fn split_words(s: &Vec<char>) -> (out: Vec<Vec<char>>)
    ensures
        out.deep_view() == words(s@),
{
    let n = s.len();
    let mut out: Vec<Vec<char>> = Vec::new();
    let mut i: usize = 0;
    proof {
        assert(s@.skip(0) =~= s@);
    }
    while i < n
        invariant
            i <= n,
            n == s@.len(),
            words(s@) =~~= out.deep_view() + words(s@.skip(i as int)),
        decreases n - i,
    {
        if is_space_char(s[i]) {
            proof {
                lemma_words_skip_space(s@.skip(i as int));
                assert(s@.skip(i as int).drop_first() =~= s@.skip(i as int + 1));
            }
            i += 1;
        } else {
            let start = i;
            let mut w: Vec<char> = Vec::new();
            while i < n && !is_space_char(s[i])
                invariant
                    start <= i <= n,
                    n == s@.len(),
                    w@ =~= s@.subrange(start as int, i as int),
                    forall|j: int| start <= j < i ==> !is_space(s@[j]),
                decreases n - i,
            {
                w.push(s[i]);
                i += 1;
                assert(w@ =~= s@.subrange(start as int, i as int));
            }
            proof {
                let tail = s@.skip(start as int);
                let k = i - start;
                assert(forall|j: int| 0 <= j < k ==> tail[j] == s@[j + start] && !is_space(
                    #[trigger] tail[j],
                ));
                assert(k == tail.len() || is_space(tail[k]));
                lemma_words_word_prefix(tail, k);
                assert(tail.take(k) =~= s@.subrange(start as int, i as int));
                assert(tail.skip(k) =~= s@.skip(i as int));
            }
            let ghost prev = out.deep_view();
            out.push(w);
            proof {
                assert(out.deep_view() =~~= prev + seq![w@]);
            }
        }
    }
    proof {
        assert(s@.skip(n as int) =~= Seq::<char>::empty());
    }
    out
}

/// The words of a line given as a string slice.
pub fn split_words_str(s: &str) -> (out: Vec<String>)
    ensures
        out.deep_view() == words(s@),
{
    let cs = chars_vec(s);
    let parts = split_words(&cs);
    let mut out: Vec<String> = Vec::new();
    let mut i: usize = 0;
    while i < parts.len()
        invariant
            i <= parts.len(),
            out.deep_view() =~~= parts.deep_view().take(i as int),
        decreases parts.len() - i,
    {
        let ghost prev = out.deep_view();
        let sv = string_of(&parts[i]);
        out.push(sv);
        i += 1;
        proof {
            assert(out.deep_view() =~~= prev + seq![sv@]);
            assert(sv@ == parts.deep_view()[i - 1]);
            assert(out.deep_view() =~~= parts.deep_view().take(i as int));
        }
    }
    proof {
        assert(parts.deep_view().take(parts.len() as int) =~~= parts.deep_view());
    }
    out
}

/// The number of words on a line.
pub fn count_words_str(s: &str) -> (r: usize)
    ensures
        r == words(s@).len(),
{
    let cs = chars_vec(s);
    let parts = split_words(&cs);
    proof {
        assert(parts.deep_view().len() == parts@.len());
    }
    parts.len()
}

/// The newline-delimited segments of a text block, with the convention of
/// `str::lines`: segments are terminated by `'\n'` (a preceding `'\r'` is
/// dropped), and a final segment without a terminator is kept.
pub open spec fn split_lines(s: Seq<char>) -> Seq<Seq<char>>
    decreases s.len(),
{
    if s.len() == 0 {
        Seq::empty()
    } else if s[0] == '\n' {
        seq![Seq::empty()] + split_lines(s.drop_first())
    } else if s[0] == '\r' && s.len() >= 2 && s[1] == '\n' {
        seq![Seq::empty()] + split_lines(s.skip(2))
    } else {
        let rest = split_lines(s.drop_first());
        if rest.len() == 0 {
            seq![seq![s[0]]]
        } else {
            seq![seq![s[0]] + rest[0]] + rest.drop_first()
        }
    }
}

/// The first segment of a block is the text up to the first newline, with a
/// trailing carriage return dropped.
pub proof fn lemma_lines_prefix(s: Seq<char>, k: int)
    requires
        0 <= k <= s.len(),
        forall|j: int| 0 <= j < k ==> s[j] != '\n',
        k == s.len() || s[k] == '\n',
    ensures
        k == s.len() && k > 0 ==> split_lines(s) =~~= seq![s],
        k < s.len() ==> split_lines(s) =~~= seq![
            if k > 0 && s[k - 1] == '\r' {
                s.take(k - 1)
            } else {
                s.take(k)
            },
        ] + split_lines(s.skip(k + 1)),
    decreases k,
{
    if s.len() == 0 {
    } else if k == 0 {
        assert(s[0] == '\n');
        assert(s.take(0) =~= Seq::<char>::empty());
        assert(s.skip(1) =~= s.drop_first());
    } else if k == 1 && s[0] == '\r' && s.len() >= 2 && s[1] == '\n' {
        assert(s.take(0) =~= Seq::<char>::empty());
    } else {
        let t = s.drop_first();
        assert(forall|j: int| 0 <= j < k - 1 ==> t[j] == s[j + 1] && #[trigger] t[j] != '\n');
        lemma_lines_prefix(t, k - 1);
        let rest = split_lines(t);
        assert(s[0] != '\n');
        assert(!(s[0] == '\r' && s.len() >= 2 && s[1] == '\n'));
        if k == s.len() {
            if k == 1 {
                assert(t.len() == 0);
                assert(rest.len() == 0);
                assert(seq![seq![s[0]]] =~~= seq![s.take(1)]);
                assert(s.take(1) =~= s);
            } else {
                assert(rest =~~= seq![t]);
                assert(split_lines(s) =~~= seq![seq![s[0]] + t]);
                assert(seq![s[0]] + t =~= s);
            }
        } else {
            assert(rest =~~= seq![
                if k - 1 > 0 && t[k - 2] == '\r' {
                    t.take(k - 2)
                } else {
                    t.take(k - 1)
                },
            ] + split_lines(t.skip(k)));
            assert(rest.len() >= 1);
            assert(split_lines(s) =~~= seq![seq![s[0]] + rest[0]] + rest.drop_first());
            if k - 1 > 0 && t[k - 2] == '\r' {
                assert(s[k - 1] == '\r');
                assert(seq![s[0]] + t.take(k - 2) =~= s.take(k - 1));
            } else {
                assert(!(k > 0 && s[k - 1] == '\r') || k == 1);
                if k == 1 {
                    // s[0] != '\r' here: a '\r' directly before '\n' was
                    // handled by the dedicated branch above
                    assert(s[0] != '\r');
                }
                assert(seq![s[0]] + t.take(k - 1) =~= s.take(k));
            }
            assert(rest.drop_first() =~~= split_lines(t.skip(k)));
            assert(t.skip(k) =~= s.skip(k + 1));
        }
    }
}

/// Splits a text block into its newline-delimited segments.
pub fn split_lines_str(s: &str) -> (out: Vec<String>)
    ensures
        out.deep_view() == split_lines(s@),
{
    let cs = chars_vec(s);
    let n = cs.len();
    let mut out: Vec<String> = Vec::new();
    let mut i: usize = 0;
    proof {
        assert(cs@.skip(0) =~= cs@);
    }
    while i < n
        invariant
            i <= n,
            n == cs@.len(),
            cs@ == s@,
            split_lines(s@) =~~= out.deep_view() + split_lines(cs@.skip(i as int)),
        decreases n - i,
    {
        let start = i;
        let mut w: Vec<char> = Vec::new();
        while i < n && cs[i] != '\n'
            invariant
                start <= i <= n,
                n == cs@.len(),
                w@ =~= cs@.subrange(start as int, i as int),
                forall|j: int| start <= j < i ==> cs@[j] != '\n',
            decreases n - i,
        {
            w.push(cs[i]);
            i += 1;
            assert(w@ =~= cs@.subrange(start as int, i as int));
        }
        proof {
            let tail = cs@.skip(start as int);
            let k = i - start;
            assert(forall|j: int| 0 <= j < k ==> tail[j] == cs@[j + start] && #[trigger] tail[j]
                != '\n');
            assert(k == tail.len() || tail[k] == '\n');
            lemma_lines_prefix(tail, k);
        }
        if i == n {
            // final segment without a terminator; empty input adds nothing
            if i > start {
                let ghost prev = out.deep_view();
                let sv = string_of(&w);
                out.push(sv);
                proof {
                    assert(cs@.skip(start as int).take(i - start) =~= cs@.skip(start as int));
                    assert(out.deep_view() =~~= prev + seq![sv@]);
                    assert(cs@.skip(i as int) =~= Seq::<char>::empty());
                }
            }
        } else {
            // a terminated segment: drop one trailing '\r'
            if w.len() > 0 && w[w.len() - 1] == '\r' {
                w.pop();
            }
            let ghost prev = out.deep_view();
            let sv = string_of(&w);
            out.push(sv);
            i += 1;
            proof {
                let tail = cs@.skip(start as int);
                let k = (i - 1) - start;
                if k > 0 && tail[k - 1] == '\r' {
                    assert(w@ =~= tail.take(k - 1));
                } else {
                    assert(w@ =~= tail.take(k));
                }
                assert(out.deep_view() =~~= prev + seq![sv@]);
                assert(tail.skip(k + 1) =~= cs@.skip(i as int));
            }
        }
    }
    proof {
        assert(cs@.skip(n as int) =~= Seq::<char>::empty());
    }
    out
}

/// Words joined by single spaces.
pub open spec fn join_words(ws: Seq<Seq<char>>) -> Seq<char>
    decreases ws.len(),
{
    if ws.len() == 0 {
        Seq::empty()
    } else if ws.len() == 1 {
        ws[0]
    } else {
        ws[0] + seq![' '] + join_words(ws.drop_first())
    }
}

/// Joining one more word appends a separating space first (unless nothing
/// was joined yet).
pub proof fn lemma_join_push(ws: Seq<Seq<char>>, w: Seq<char>)
    ensures
        ws.len() == 0 ==> join_words(ws.push(w)) == w,
        ws.len() > 0 ==> join_words(ws.push(w)) =~= join_words(ws) + seq![' '] + w,
    decreases ws.len(),
{
    if ws.len() == 0 {
        assert(ws.push(w)[0] == w);
    } else if ws.len() == 1 {
        assert(ws.push(w).drop_first() =~~= seq![w]);
        assert(join_words(seq![w]) == w);
        assert(join_words(ws.push(w)) == ws[0] + seq![' '] + w);
    } else {
        lemma_join_push(ws.drop_first(), w);
        assert(ws.push(w).drop_first() =~~= ws.drop_first().push(w));
        assert(join_words(ws.push(w)) == ws[0] + seq![' '] + join_words(ws.drop_first().push(w)));
    }
}

/// Joins the given words with single spaces.
pub fn join_with_spaces(ws: &Vec<String>) -> (r: String)
    ensures
        r@ == join_words(ws.deep_view()),
{
    let mut s = String::new();
    let mut i: usize = 0;
    while i < ws.len()
        invariant
            i <= ws.len(),
            s@ =~= join_words(ws.deep_view().take(i as int)),
        decreases ws.len() - i,
    {
        if i > 0 {
            push_char(&mut s, ' ');
        }
        let cs = chars_vec(ws[i].as_str());
        let mut j: usize = 0;
        let ghost base = s@;
        while j < cs.len()
            invariant
                j <= cs.len(),
                s@ =~= base + cs@.take(j as int),
            decreases cs.len() - j,
        {
            push_char(&mut s, cs[j]);
            j += 1;
            assert(s@ =~= base + cs@.take(j as int));
        }
        proof {
            let pref = ws.deep_view().take(i as int);
            lemma_join_push(pref, ws.deep_view()[i as int]);
            assert(cs@.take(cs@.len() as int) =~= cs@);
            assert(pref.push(ws.deep_view()[i as int]) =~~= ws.deep_view().take(i + 1));
        }
        i += 1;
    }
    proof {
        assert(ws.deep_view().take(ws.len() as int) =~~= ws.deep_view());
    }
    s
}

/// A sequence consisting of whitespace only (or empty).
pub open spec fn is_blank(s: Seq<char>) -> bool {
    forall|i: int| 0 <= i < s.len() ==> is_space(s[i])
}

/// Whether the given text holds whitespace only.
pub fn is_blank_str(s: &str) -> (r: bool)
    ensures
        r == is_blank(s@),
{
    let cs = chars_vec(s);
    let mut i: usize = 0;
    while i < cs.len()
        invariant
            i <= cs@.len(),
            cs@ == s@,
            forall|j: int| 0 <= j < i ==> is_space(s@[j]),
        decreases cs@.len() - i,
    {
        if !is_space_char(cs[i]) {
            return false;
        }
        i += 1;
    }
    true
}

/// The text with leading whitespace removed.
pub open spec fn trim_start(s: Seq<char>) -> Seq<char>
    decreases s.len(),
{
    if s.len() > 0 && is_space(s[0]) {
        trim_start(s.drop_first())
    } else {
        s
    }
}

/// The text with trailing whitespace removed.
pub open spec fn trim_end(s: Seq<char>) -> Seq<char>
    decreases s.len(),
{
    if s.len() > 0 && is_space(s[s.len() - 1]) {
        trim_end(s.drop_last())
    } else {
        s
    }
}

/// The text with surrounding whitespace removed.
pub open spec fn trimmed(s: Seq<char>) -> Seq<char> {
    trim_end(trim_start(s))
}

proof fn lemma_trim_start_at(s: Seq<char>, a: int)
    requires
        0 <= a <= s.len(),
        forall|j: int| 0 <= j < a ==> is_space(s[j]),
        a == s.len() || !is_space(s[a]),
    ensures
        trim_start(s) =~= s.skip(a),
    decreases a,
{
    if a == 0 {
        assert(s.skip(0) =~= s);
    } else {
        let t = s.drop_first();
        assert(is_space(s[0]));
        assert(forall|j: int| 0 <= j < a - 1 ==> t[j] == s[j + 1] && is_space(#[trigger] t[j]));
        lemma_trim_start_at(t, a - 1);
        assert(t.skip(a - 1) =~= s.skip(a));
    }
}

proof fn lemma_trim_end_at(s: Seq<char>, b: int)
    requires
        0 <= b <= s.len(),
        forall|j: int| b <= j < s.len() ==> is_space(s[j]),
        b == 0 || !is_space(s[b - 1]),
    ensures
        trim_end(s) =~= s.take(b),
    decreases s.len() - b,
{
    if b == s.len() {
        assert(s.take(b) =~= s);
    } else {
        let t = s.drop_last();
        assert(is_space(s[s.len() - 1]));
        assert(forall|j: int| b <= j < t.len() ==> t[j] == s[j] && is_space(#[trigger] t[j]));
        lemma_trim_end_at(t, b);
        assert(t.take(b) =~= s.take(b));
    }
}

/// The given characters with surrounding whitespace removed.
pub fn trim_chars(cs: &Vec<char>) -> (r: Vec<char>)
    ensures
        r@ == trimmed(cs@),
{
    let n = cs.len();
    let mut a: usize = 0;
    while a < n && is_space_char(cs[a])
        invariant
            a <= n,
            n == cs@.len(),
            forall|j: int| 0 <= j < a ==> is_space(cs@[j]),
        decreases n - a,
    {
        a += 1;
    }
    proof {
        lemma_trim_start_at(cs@, a as int);
    }
    let mut b: usize = n;
    while b > a && is_space_char(cs[b - 1])
        invariant
            a <= b <= n,
            n == cs@.len(),
            forall|j: int| b <= j < n ==> is_space(cs@[j]),
        decreases b,
    {
        b -= 1;
    }
    let mut out: Vec<char> = Vec::new();
    let mut i: usize = a;
    while i < b
        invariant
            a <= i <= b <= n,
            n == cs@.len(),
            out@ =~= cs@.subrange(a as int, i as int),
        decreases b - i,
    {
        out.push(cs[i]);
        i += 1;
        assert(out@ =~= cs@.subrange(a as int, i as int));
    }
    proof {
        let st = trim_start(cs@);
        assert(st == cs@.skip(a as int));
        if b == a {
            // everything after the leading run is whitespace
            assert(forall|j: int| 0 <= j < st.len() ==> is_space(#[trigger] st[j]));
            lemma_trim_end_at(st, 0);
            assert(out@ =~= st.take(0));
        } else {
            assert(!is_space(cs@[b - 1]));
            assert(forall|j: int| b - a <= j < st.len() ==> st[j] == cs@[j + a] && is_space(
                #[trigger] st[j],
            ));
            lemma_trim_end_at(st, b - a);
            assert(out@ =~= st.take(b - a));
        }
    }
    out
}

/// `p` occurs as a prefix of `s`.
pub open spec fn starts_with(s: Seq<char>, p: Seq<char>) -> bool {
    p.len() <= s.len() && s.take(p.len() as int) == p
}

/// `p` occurs as a suffix of `s`.
pub open spec fn ends_with(s: Seq<char>, p: Seq<char>) -> bool {
    p.len() <= s.len() && s.skip(s.len() - p.len()) == p
}

/// `p` occurs somewhere in `s`.
pub open spec fn contains_seq(s: Seq<char>, p: Seq<char>) -> bool {
    exists|i: int| 0 <= i <= s.len() - p.len() && #[trigger] s.subrange(i, i + p.len()) == p
}

fn match_at(hay: &Vec<char>, needle: &Vec<char>, at: usize) -> (r: bool)
    requires
        at + needle@.len() <= hay@.len(),
    ensures
        r == (hay@.subrange(at as int, at as int + needle@.len()) == needle@),
{
    let m = needle.len();
    let n = hay.len();
    let mut j: usize = 0;
    while j < m
        invariant
            j <= m,
            m == needle@.len(),
            n == hay@.len(),
            at + m <= n,
            forall|t: int| 0 <= t < j ==> hay@[at + t] == needle@[t],
        decreases m - j,
    {
        if hay[at + j] != needle[j] {
            proof {
                assert(hay@.subrange(at as int, at as int + m)[j as int] != needle@[j as int]);
            }
            return false;
        }
        j += 1;
    }
    proof {
        assert(hay@.subrange(at as int, at as int + m) =~= needle@);
    }
    true
}

/// Whether `needle` occurs anywhere in `hay`.
pub fn contains_chars(hay: &Vec<char>, needle: &Vec<char>) -> (r: bool)
    ensures
        r == contains_seq(hay@, needle@),
{
    let n = hay.len();
    let m = needle.len();
    if m > n {
        return false;
    }
    if m == 0 {
        proof {
            assert(hay@.subrange(0, 0 + needle@.len() as int) =~= needle@);
        }
        return true;
    }
    let mut i: usize = 0;
    while i <= n - m
        invariant
            m <= n,
            n == hay@.len(),
            m == needle@.len(),
            1 <= m,
            i <= n - m + 1,
            forall|j: int| 0 <= j < i ==> #[trigger] hay@.subrange(j, j + needle@.len())
                != needle@,
        decreases n + 1 - i,
    {
        if match_at(hay, needle, i) {
            proof {
                assert(0 <= i as int <= hay@.len() - needle@.len());
            }
            return true;
        }
        i += 1;
    }
    false
}

/// Whether `s` starts with `p`.
pub fn starts_with_chars(s: &Vec<char>, p: &Vec<char>) -> (r: bool)
    ensures
        r == starts_with(s@, p@),
{
    if p.len() > s.len() {
        return false;
    }
    let r = match_at(s, p, 0);
    proof {
        assert(s@.subrange(0, p@.len() as int) == s@.take(p@.len() as int));
    }
    r
}

/// Whether `s` ends with `p`.
pub fn ends_with_chars(s: &Vec<char>, p: &Vec<char>) -> (r: bool)
    ensures
        r == ends_with(s@, p@),
{
    if p.len() > s.len() {
        return false;
    }
    let at = s.len() - p.len();
    let r = match_at(s, p, at);
    proof {
        assert(s@.subrange(at as int, at as int + p@.len()) == s@.skip(s@.len() - p@.len()));
    }
    r
}

/// ASCII upper-case letters folded to lower case; all else unchanged.
pub open spec fn fold_ascii(c: char) -> char {
    let u = c as int;
    if 0x41 <= u <= 0x5A {
        (u + 0x20) as char
    } else {
        c
    }
}

/// Folds one character to ASCII lower case.
pub fn fold_ascii_char(c: char) -> (r: char)
    ensures
        r == fold_ascii(c),
{
    let u = c as u32;
    if 0x41 <= u && u <= 0x5A {
        ((u + 0x20) as u8) as char
    } else {
        c
    }
}

/// Whether the two texts are equal.
pub fn chars_eq(a: &Vec<char>, b: &Vec<char>) -> (r: bool)
    ensures
        r == (a@ == b@),
{
    if a.len() != b.len() {
        return false;
    }
    let r = match_at(a, b, 0);
    proof {
        assert(a@.subrange(0, b@.len() as int) =~= a@);
    }
    r
}

/// Whether the two strings hold the same characters.
pub fn str_eq(a: &str, b: &str) -> (r: bool)
    ensures
        r == (a@ == b@),
{
    let av = chars_vec(a);
    let bv = chars_vec(b);
    chars_eq(&av, &bv)
}

/// The decimal digit character for `d`.
pub open spec fn dec_digit(d: int) -> char {
    (0x30 + d) as char
}

/// The decimal representation of `n`, most significant digit first.
pub open spec fn dec_digits(n: nat) -> Seq<char>
    decreases n,
{
    if n < 10 {
        seq![dec_digit(n as int)]
    } else {
        dec_digits(n / 10) + seq![dec_digit((n % 10) as int)]
    }
}

fn dec_digit_char(d: u64) -> (r: char)
    requires
        d < 10,
    ensures
        r == dec_digit(d as int),
{
    ((0x30 + d) as u8) as char
}

/// The decimal representation of `n`.
pub fn dec_string(n: u64) -> (r: String)
    ensures
        r@ == dec_digits(n as nat),
    decreases n,
{
    if n < 10 {
        let mut s = String::new();
        push_char(&mut s, dec_digit_char(n));
        proof {
            assert(s@ =~= dec_digits(n as nat));
        }
        s
    } else {
        let mut s = dec_string(n / 10);
        push_char(&mut s, dec_digit_char(n % 10));
        proof {
            assert(s@ =~= dec_digits(n as nat));
        }
        s
    }
}

/// What `str::to_lowercase` returns: a function of the characters alone.
pub uninterp spec fn lower_of(s: Seq<char>) -> Seq<char>;

/// Relies on `str::to_lowercase`: the result depends on the characters
/// alone, and an empty string stays empty.
#[verifier::external_body]
pub fn lowercase(s: &str) -> (r: String)
    ensures
        r@ == lower_of(s@),
        s@.len() == 0 ==> r@.len() == 0,
{
    s.to_lowercase()
}

} // verus!
