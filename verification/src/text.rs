//! Character-level helpers shared by the route parser and the decorators.
//!
//! All specifications are stated over `Seq<char>`, the view of `str` and
//! `String`.

use vstd::prelude::*;
use vstd::std_specs::iter::IteratorSpec;

verus! {

/// The position of the first `/` in `s`, or `s.len()` if there is none.
pub open spec fn first_slash(s: Seq<char>) -> int
    decreases s.len(),
{
    if s.len() == 0 || s[0] == '/' {
        0
    } else {
        1 + first_slash(s.drop_first())
    }
}

/// The non-empty pieces of `s` between slashes, in order.
///
/// Leading, trailing and repeated slashes contribute nothing.
pub open spec fn segments(s: Seq<char>) -> Seq<Seq<char>>
    decreases s.len(),
{
    if s.len() == 0 {
        Seq::empty()
    } else {
        let k = first_slash(s);
        let rest = if 0 <= k < s.len() {
            segments(s.skip(k + 1))
        } else {
            Seq::empty()
        };
        if k == 0 {
            rest
        } else {
            seq![s.take(k)] + rest
        }
    }
}

/// `first_slash` is the least index holding a slash, bounded by the length.
pub proof fn lemma_first_slash(s: Seq<char>)
    ensures
        0 <= first_slash(s) <= s.len(),
        forall|j: int| 0 <= j < first_slash(s) ==> s[j] != '/',
        first_slash(s) < s.len() ==> s[first_slash(s)] == '/',
    decreases s.len(),
{
    if s.len() == 0 || s[0] == '/' {
    } else {
        let t = s.drop_first();
        lemma_first_slash(t);
        assert forall|j: int| 0 <= j < first_slash(s) implies s[j] != '/' by {
            if j > 0 {
                assert(s[j] == t[j - 1]);
            }
        }
        if first_slash(s) < s.len() {
            assert(s[first_slash(s)] == t[first_slash(t)]);
        }
    }
}

/// Any index with no slash before it, that holds a slash or is the end of
/// `s`, is `first_slash(s)`.
pub proof fn lemma_first_slash_is(s: Seq<char>, k: int)
    requires
        0 <= k <= s.len(),
        forall|j: int| 0 <= j < k ==> s[j] != '/',
        k < s.len() ==> s[k] == '/',
    ensures
        first_slash(s) == k,
{
    lemma_first_slash(s);
    let f = first_slash(s);
    if f < k {
        assert(s[f] != '/');
    } else if k < f {
        assert(s[k] != '/');
    }
}

/// Splits `path` on `/` and discards the empty pieces.
pub fn split_segments<'a>(path: &'a str) -> (out: Vec<&'a str>)
    ensures
        out.deep_view() == segments(path@),
{
    // The count of characters bounds every position below.
    let total = path.unicode_len();
    let mut out: Vec<&'a str> = Vec::new();
    let mut start: usize = 0;
    let mut pos: usize = 0;
    assert(path@.skip(0) == path@);
    assert(out.deep_view() == Seq::<Seq<char>>::empty());
    for c in it: path.chars()
        invariant
            it.seq() == path@,
            total == path@.len(),
            pos == it.index(),
            start <= pos,
            forall|j: int| start <= j < pos ==> path@[j] != '/',
            out.deep_view() + segments(path@.skip(start as int)) == segments(path@),
    {
        if c == '/' {
            let ghost tail = path@.skip(start as int);
            let ghost before = out.deep_view();
            proof {
                lemma_first_slash_is(tail, pos - start);
                assert(tail.skip(pos - start + 1) == path@.skip(pos + 1));
                assert(tail.take(pos - start) == path@.subrange(start as int, pos as int));
            }
            if start < pos {
                let piece = path.substring_char(start, pos);
                out.push(piece);
                assert(out.deep_view() == before + seq![piece@]);
            }
            start = pos + 1;
        }
        pos = pos + 1;
    }
    let ghost tail = path@.skip(start as int);
    let ghost before = out.deep_view();
    proof {
        lemma_first_slash_is(tail, pos - start);
        assert(tail.take(pos - start) == path@.subrange(start as int, pos as int));
    }
    if start < pos {
        let piece = path.substring_char(start, pos);
        out.push(piece);
        assert(out.deep_view() == before + seq![piece@]);
    }
    out
}

/// Whether two strings hold the same characters.
pub fn str_eq(a: &str, b: &str) -> (same: bool)
    ensures
        same == (a@ == b@),
{
    let mut left = a.chars();
    let mut right = b.chars();
    let ghost mut done: int = 0;
    loop
        invariant
            0 <= done <= a@.len(),
            done <= b@.len(),
            left.remaining() == a@.skip(done),
            right.remaining() == b@.skip(done),
            a@.take(done) == b@.take(done),
        decreases a@.len() - done,
    {
        let x = left.next();
        let y = right.next();
        match (x, y) {
            (None, None) => {
                assert(a@ == a@.take(done));
                assert(b@ == b@.take(done));
                return true;
            },
            (Some(p), Some(q)) => {
                if p != q {
                    assert(a@[done] != b@[done]);
                    return false;
                }
                proof {
                    assert(a@.take(done + 1) == a@.take(done).push(a@[done]));
                    assert(b@.take(done + 1) == b@.take(done).push(b@[done]));
                    assert(a@.skip(done).drop_first() == a@.skip(done + 1));
                    assert(b@.skip(done).drop_first() == b@.skip(done + 1));
                    done = done + 1;
                }
            },
            _ => {
                assert(a@.len() != b@.len());
                return false;
            },
        }
    }
}

} // verus!

verus! {

/// Text that can be taken over as an owned `String`.
pub trait IntoText {
    /// The characters of this text.
    spec fn text(&self) -> Seq<char>;

    /// Converts this text into an owned `String` of the same characters.
    fn into_text(self) -> (owned: String)
        ensures
            owned@ == self.text(),
    ;
}

impl IntoText for String {
    open spec fn text(&self) -> Seq<char> {
        self@
    }

    fn into_text(self) -> (owned: String) {
        self
    }
}

impl<'a> IntoText for &'a str {
    open spec fn text(&self) -> Seq<char> {
        self@
    }

    fn into_text(self) -> (owned: String) {
        self.to_owned()
    }
}

/// The characters of `s`, one entry each.
pub fn chars_of(s: &str) -> (chars: Vec<char>)
    ensures
        chars@ == s@,
{
    let mut chars: Vec<char> = Vec::new();
    for c in it: s.chars()
        invariant
            it.seq() == s@,
            chars@ == s@.take(it.index() as int),
    {
        chars.push(c);
    }
    chars
}

/// Whether `needle` stands in `hay` at position `i`.
pub open spec fn occurs_at(hay: Seq<char>, needle: Seq<char>, i: int) -> bool {
    0 <= i && i + needle.len() <= hay.len() && hay.subrange(i, i + needle.len()) == needle
}

/// Whether `i` is the first position at or after `from` where `needle`
/// stands in `hay`.
pub open spec fn is_first_occurrence(hay: Seq<char>, needle: Seq<char>, from: int, i: int) -> bool {
    &&& from <= i
    &&& occurs_at(hay, needle, i)
    &&& forall|j: int| from <= j < i ==> !occurs_at(hay, needle, j)
}

/// The first position at or after `from` where `needle` stands in `hay`.
pub open spec fn first_occurrence(hay: Seq<char>, needle: Seq<char>, from: int) -> Option<int> {
    if exists|i: int| from <= i && occurs_at(hay, needle, i) {
        Some(choose|i: int| is_first_occurrence(hay, needle, from, i))
    } else {
        None
    }
}

/// A first occurrence is the first occurrence.
pub proof fn lemma_first_occurrence_is(hay: Seq<char>, needle: Seq<char>, from: int, i: int)
    requires
        is_first_occurrence(hay, needle, from, i),
    ensures
        first_occurrence(hay, needle, from) == Some(i),
{
    let c = choose|c: int| is_first_occurrence(hay, needle, from, c);
    if c < i {
        assert(!occurs_at(hay, needle, c));
    } else if i < c {
        assert(!occurs_at(hay, needle, i));
    }
}

/// Whether `needle` stands in `hay` at position `at`.
fn matches_at(hay: &Vec<char>, needle: &Vec<char>, at: usize) -> (found: bool)
    requires
        at + needle.len() <= hay.len(),
    ensures
        found == occurs_at(hay@, needle@, at as int),
{
    let mut k: usize = 0;
    while k < needle.len()
        invariant
            k <= needle.len(),
            at + needle.len() <= hay.len(),
            forall|j: int| 0 <= j < k ==> hay@[at + j] == needle@[j],
        decreases needle.len() - k,
    {
        if hay[at + k] != needle[k] {
            assert(hay@.subrange(at as int, at + needle.len())[k as int] != needle@[k as int]);
            return false;
        }
        k = k + 1;
    }
    assert(hay@.subrange(at as int, at + needle.len()) =~= needle@);
    true
}

/// Finds the first position at or after `from` where `needle` stands in
/// `hay`.
pub fn find(hay: &Vec<char>, needle: &Vec<char>, from: usize) -> (found: Option<usize>)
    ensures
        match found {
            Some(i) => {
                &&& first_occurrence(hay@, needle@, from as int) == Some(i as int)
                &&& is_first_occurrence(hay@, needle@, from as int, i as int)
            },
            None => first_occurrence(hay@, needle@, from as int) is None,
        },
{
    if needle.len() > hay.len() || from > hay.len() - needle.len() {
        return None;
    }
    let last = hay.len() - needle.len();
    let mut i: usize = from;
    loop
        invariant
            from <= i <= last,
            last == hay.len() - needle.len(),
            forall|j: int| from <= j < i ==> !occurs_at(hay@, needle@, j),
        decreases last - i,
    {
        if matches_at(hay, needle, i) {
            proof {
                lemma_first_occurrence_is(hay@, needle@, from as int, i as int);
            }
            return Some(i);
        }
        if i == last {
            return None;
        }
        i = i + 1;
    }
}

} // verus!

verus! {

/// The segments of `parts` written out as one path, with a `/` between
/// each two.
pub open spec fn joined(parts: Seq<Seq<char>>) -> Seq<char>
    decreases parts.len(),
{
    if parts.len() == 0 {
        Seq::empty()
    } else if parts.len() == 1 {
        parts[0]
    } else {
        joined(parts.drop_last()) + seq!['/'] + parts.last()
    }
}

/// Writes `parts` out as one path, with a `/` between each two.
pub fn join_segments(parts: &Vec<&str>) -> (text: String)
    ensures
        text@ == joined(parts.deep_view()),
{
    let mut text = String::new();
    let mut i: usize = 0;
    proof {
        reveal_strlit("/");
        assert("/"@ == seq!['/']);
    }
    while i < parts.len()
        invariant
            i <= parts.len(),
            "/"@ == seq!['/'],
            text@ == joined(parts.deep_view().take(i as int)),
        decreases parts.len() - i,
    {
        let ghost all = parts.deep_view();
        proof {
            assert(all.take(i as int + 1).drop_last() == all.take(i as int));
            assert(all.take(i as int + 1).last() == parts[i as int]@);
        }
        if i > 0 {
            text.append("/");
        }
        text.append(parts[i]);
        i = i + 1;
    }
    assert(parts.deep_view().take(i as int) == parts.deep_view());
    text
}

} // verus!

verus! {

/// Splits `spec` on `/` and discards the empty pieces; each piece is a
/// string of its own.
pub fn owned_segments(spec: &str) -> (owned: Vec<String>)
    ensures
        owned.deep_view() == segments(spec@),
{
    let pieces = split_segments(spec);
    let mut owned: Vec<String> = Vec::new();
    let mut i: usize = 0;
    while i < pieces.len()
        invariant
            i <= pieces.len(),
            owned.deep_view() == pieces.deep_view().take(i as int),
        decreases pieces.len() - i,
    {
        let ghost before = owned.deep_view();
        let piece = pieces[i].to_owned();
        owned.push(piece);
        assert(owned.deep_view() == before.push(piece@));
        assert(pieces.deep_view()[i as int] == pieces[i as int]@);
        assert(pieces.deep_view().take(i as int + 1) == pieces.deep_view().take(i as int).push(
            pieces.deep_view()[i as int],
        ));
        i = i + 1;
    }
    assert(pieces.deep_view().take(i as int) == pieces.deep_view());
    owned
}

} // verus!

verus! {

/// Whether `s` can stand as one segment of a path: it is not empty and
/// holds no slash.
pub open spec fn is_segment(s: Seq<char>) -> bool {
    s.len() > 0 && forall|j: int| 0 <= j < s.len() ==> s[j] != '/'
}

/// Every piece that `segments` gives is a segment: none is empty, and none
/// holds a slash.
pub proof fn lemma_segments_are_segments(s: Seq<char>)
    ensures
        forall|i: int| 0 <= i < segments(s).len() ==> is_segment(#[trigger] segments(s)[i]),
    decreases s.len(),
{
    if s.len() > 0 {
        lemma_first_slash(s);
        let k = first_slash(s);
        let rest = if k < s.len() {
            segments(s.skip(k + 1))
        } else {
            Seq::empty()
        };
        if k < s.len() {
            lemma_segments_are_segments(s.skip(k + 1));
        }
        assert forall|i: int| 0 <= i < segments(s).len() implies is_segment(
            #[trigger] segments(s)[i],
        ) by {
            if k == 0 {
                assert(segments(s)[i] == rest[i]);
            } else if i == 0 {
                assert(segments(s)[i] == s.take(k));
                assert(is_segment(s.take(k)));
            } else {
                assert(segments(s)[i] == rest[i - 1]);
            }
        }
    }
}

/// A text that is one segment splits into itself.
pub proof fn lemma_segments_of_segment(s: Seq<char>)
    requires
        is_segment(s),
    ensures
        segments(s) == seq![s],
{
    lemma_first_slash_is(s, s.len() as int);
    assert(s.take(s.len() as int) == s);
    assert(seq![s] + Seq::<Seq<char>>::empty() == seq![s]);
}

/// A slash cuts a text in two: the segments of what stands before it,
/// followed by the segments of what stands after it.
pub proof fn lemma_segments_around_slash(a: Seq<char>, b: Seq<char>)
    ensures
        segments(a + seq!['/'] + b) == segments(a) + segments(b),
    decreases a.len(),
{
    let s = a + seq!['/'] + b;
    if a.len() == 0 {
        assert(s.skip(1) == b);
        assert(segments(a) + segments(b) == segments(b));
    } else {
        lemma_first_slash(a);
        let k = first_slash(a);
        assert(s.take(k) == a.take(k));
        if k < a.len() {
            lemma_first_slash_is(s, k);
            assert(s.skip(k + 1) == a.skip(k + 1) + seq!['/'] + b);
            lemma_segments_around_slash(a.skip(k + 1), b);
            if k > 0 {
                assert(seq![a.take(k)] + (segments(a.skip(k + 1)) + segments(b)) == (seq![
                    a.take(k),
                ] + segments(a.skip(k + 1))) + segments(b));
            }
        } else {
            lemma_first_slash_is(s, k);
            assert(s.skip(k + 1) == b);
            assert(a.take(k) == a);
            assert(seq![a] + Seq::<Seq<char>>::empty() == seq![a]);
        }
    }
}

/// A slash at the start or at the end of a text is insignificant.
pub proof fn lemma_outer_slashes_are_insignificant(s: Seq<char>)
    ensures
        segments(seq!['/'] + s) == segments(s),
        segments(s + seq!['/']) == segments(s),
{
    let none = Seq::<char>::empty();
    lemma_segments_around_slash(none, s);
    assert(none + seq!['/'] + s == seq!['/'] + s);
    assert(segments(none) + segments(s) == segments(s));
    lemma_segments_around_slash(s, none);
    assert(s + seq!['/'] + none == s + seq!['/']);
    assert(segments(s) + segments(none) == segments(s));
}

/// Splitting undoes joining: segments written out as one path split into
/// themselves.
pub proof fn lemma_segments_of_joined(parts: Seq<Seq<char>>)
    requires
        forall|i: int| 0 <= i < parts.len() ==> is_segment(#[trigger] parts[i]),
    ensures
        segments(joined(parts)) == parts,
    decreases parts.len(),
{
    if parts.len() == 0 {
        assert(parts == Seq::<Seq<char>>::empty());
    } else if parts.len() == 1 {
        lemma_segments_of_segment(parts[0]);
        assert(parts == seq![parts[0]]);
    } else {
        let front = parts.drop_last();
        lemma_segments_of_joined(front);
        lemma_segments_around_slash(joined(front), parts.last());
        lemma_segments_of_segment(parts.last());
        assert(front + seq![parts.last()] == parts);
    }
}

} // verus!
