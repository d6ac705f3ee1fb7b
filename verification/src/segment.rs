//! Text segmentation: grapheme clusters, word tokens, and the byte offsets
//! that tie them back to the stored UTF-8 text.

use unicode_segmentation::UnicodeSegmentation;
use vstd::prelude::*;
use vstd::string::*;
use vstd::utf8::encode_utf8;

verus! {

/// The extended grapheme clusters of `text`, in order, as
/// `unicode_segmentation` cuts them.
pub uninterp spec fn graphemes_of(text: Seq<char>) -> Seq<Seq<char>>;

/// The tokens between consecutive word boundaries of `text`, in order, as
/// `unicode_segmentation` cuts them.
pub uninterp spec fn words_of(text: Seq<char>) -> Seq<Seq<char>>;

/// The pieces written one after another.
pub open spec fn concat(parts: Seq<Seq<char>>) -> Seq<char>
    decreases parts.len(),
{
    if parts.len() == 0 {
        Seq::empty()
    } else {
        concat(parts.drop_last()) + parts.last()
    }
}

/// The texts of a sequence of strings.
pub open spec fn views(parts: Seq<String>) -> Seq<Seq<char>> {
    parts.map_values(|p: String| p@)
}

/// The texts of a sequence of tokens that carry their byte offset.
pub open spec fn token_views(parts: Seq<(usize, String)>) -> Seq<Seq<char>> {
    parts.map_values(|p: (usize, String)| p.1@)
}

/// The number of bytes that `text` takes in UTF-8.
pub open spec fn byte_len(text: Seq<char>) -> nat {
    encode_utf8(text).len()
}

/// No piece is empty.
pub open spec fn all_nonempty(parts: Seq<Seq<char>>) -> bool {
    forall|i: int| 0 <= i < parts.len() ==> (#[trigger] parts[i]).len() > 0
}

/// The clusters of `text` spell `text`, and none of them is empty.
pub open spec fn segmented(text: Seq<char>) -> bool {
    &&& concat(graphemes_of(text)) == text
    &&& all_nonempty(graphemes_of(text))
}

/// Extending a window of pieces by one appends that piece.
pub proof fn lemma_concat_step(parts: Seq<Seq<char>>, from: int, to: int)
    requires
        0 <= from <= to < parts.len(),
    ensures
        concat(parts.subrange(from, to + 1)) == concat(parts.subrange(from, to)) + parts[to],
{
    assert(parts.subrange(from, to + 1).drop_last() =~= parts.subrange(from, to));
}

/// Concatenation distributes over joining two sequences of pieces.
pub proof fn lemma_concat_add(a: Seq<Seq<char>>, b: Seq<Seq<char>>)
    ensures
        concat(a + b) == concat(a) + concat(b),
    decreases b.len(),
{
    if b.len() == 0 {
        assert(a + b =~= a);
        assert(concat(a) + concat(b) =~= concat(a));
    } else {
        lemma_concat_add(a, b.drop_last());
        assert((a + b).drop_last() =~= a + b.drop_last());
        assert(concat(a + b) =~= concat(a) + concat(b));
    }
}

/// Non-empty pieces spell the empty text only when there are none.
pub proof fn lemma_concat_empty(parts: Seq<Seq<char>>)
    requires
        all_nonempty(parts),
        concat(parts).len() == 0,
    ensures
        parts.len() == 0,
{
    if parts.len() > 0 {
        assert(parts.last().len() > 0);
    }
}

/// Calls `UnicodeSegmentation::graphemes` with extended clusters and copies
/// each cluster into a `String`. Trusted: the clusters are those named by
/// `graphemes_of`, they are consecutive slices that cover the text (so their
/// concatenation is the text), and none is empty.
#[verifier::external_body]
pub(crate) fn graphemes(text: &str) -> (parts: Vec<String>)
    ensures
        views(parts@) == graphemes_of(text@),
        concat(views(parts@)) == text@,
        all_nonempty(views(parts@)),
{
    let mut parts: Vec<String> = Vec::new();
    for cluster in text.graphemes(true) {
        parts.push(String::from(cluster));
    }
    parts
}

/// Calls `UnicodeSegmentation::split_word_bound_indices` and copies each token
/// into a `String` beside its byte offset. Trusted: the tokens are those named
/// by `words_of`, and each offset is the number of UTF-8 bytes that the
/// tokens before it take: the tokens are consecutive slices from the start
/// of the text.
#[verifier::external_body]
pub(crate) fn word_bound_indices(text: &str) -> (parts: Vec<(usize, String)>)
    ensures
        token_views(parts@) == words_of(text@),
        forall|i: int|
            0 <= i < parts.len() ==> (#[trigger] parts[i]).0 == byte_len(
                concat(token_views(parts@).take(i)),
            ),
{
    let mut parts: Vec<(usize, String)> = Vec::new();
    for (start, token) in text.split_word_bound_indices() {
        parts.push((start, String::from(token)));
    }
    parts
}

/// Calls `String::push`. Trusted: the character is appended at the end.
#[verifier::external_body]
pub(crate) fn push_char(text: &mut String, c: char)
    ensures
        final(text)@ == old(text)@.push(c),
{
    text.push(c);
}

/// The bytes of `needle` stand in `hay` at byte offset `at`.
pub open spec fn occurs_at(hay: Seq<u8>, needle: Seq<u8>, at: int) -> bool {
    &&& 0 <= at
    &&& at + needle.len() <= hay.len()
    &&& hay.subrange(at, at + needle.len()) == needle
}

/// `at` is the lowest byte offset at which `needle` stands in `hay`.
pub open spec fn first_match(hay: Seq<u8>, needle: Seq<u8>, at: int) -> bool {
    &&& occurs_at(hay, needle, at)
    &&& forall|k: int| 0 <= k < at ==> !occurs_at(hay, needle, k)
}

/// `at` is the highest byte offset at which `needle` stands in `hay`.
pub open spec fn last_match(hay: Seq<u8>, needle: Seq<u8>, at: int) -> bool {
    &&& occurs_at(hay, needle, at)
    &&& forall|k: int| at < k ==> !occurs_at(hay, needle, k)
}

/// Whether the bytes of `needle` stand in `hay` at byte offset `at`.
fn bytes_at(hay: &[u8], needle: &[u8], at: usize) -> (b: bool)
    requires
        at + needle.len() <= hay.len(),
    ensures
        b == occurs_at(hay@, needle@, at as int),
{
    let mut j: usize = 0;
    while j < needle.len()
        invariant
            j <= needle.len(),
            at + needle.len() <= hay.len(),
            forall|k: int| 0 <= k < j ==> hay@[at + k] == needle@[k],
        decreases needle.len() - j,
    {
        if hay[at + j] != needle[j] {
            assert(hay@.subrange(at as int, at + needle.len())[j as int] != needle@[j as int]);
            return false;
        }
        j += 1;
    }
    assert(hay@.subrange(at as int, at + needle.len()) =~= needle@);
    true
}

/// The byte offset of the first occurrence of `needle` in `hay`; `None`
/// exactly when it does not occur.
pub(crate) fn find_bytes(hay: &str, needle: &str) -> (found: Option<usize>)
    ensures
        match found {
            Some(at) => first_match(encode_utf8(hay@), encode_utf8(needle@), at as int),
            None => forall|k: int|
                !#[trigger] occurs_at(encode_utf8(hay@), encode_utf8(needle@), k),
        },
{
    let h = hay.as_bytes();
    let n = needle.as_bytes();
    if n.len() > h.len() {
        return None;
    }
    let last = h.len() - n.len();
    let mut at: usize = 0;
    loop
        invariant
            at <= last,
            last == h.len() - n.len(),
            h@ == encode_utf8(hay@),
            n@ == encode_utf8(needle@),
            forall|k: int| 0 <= k < at ==> !#[trigger] occurs_at(h@, n@, k),
        decreases last - at,
    {
        if bytes_at(h, n, at) {
            return Some(at);
        }
        if at == last {
            return None;
        }
        at += 1;
    }
}

/// The byte offset of the last occurrence of `needle` in `hay`; `None`
/// exactly when it does not occur.
pub(crate) fn rfind_bytes(hay: &str, needle: &str) -> (found: Option<usize>)
    ensures
        match found {
            Some(at) => last_match(encode_utf8(hay@), encode_utf8(needle@), at as int),
            None => forall|k: int|
                !#[trigger] occurs_at(encode_utf8(hay@), encode_utf8(needle@), k),
        },
{
    let h = hay.as_bytes();
    let n = needle.as_bytes();
    if n.len() > h.len() {
        return None;
    }
    let last = h.len() - n.len();
    let mut at: usize = last;
    loop
        invariant
            at <= last,
            last == h.len() - n.len(),
            h@ == encode_utf8(hay@),
            n@ == encode_utf8(needle@),
            forall|k: int| at < k ==> !#[trigger] occurs_at(h@, n@, k),
        decreases at,
    {
        if bytes_at(h, n, at) {
            return Some(at);
        }
        if at == 0 {
            return None;
        }
        at -= 1;
    }
}

/// The characters of `text`.
pub(crate) fn chars_of(text: &str) -> (out: Vec<char>)
    ensures
        out@ == text@,
{
    let mut out: Vec<char> = Vec::new();
    for c in it: text.chars()
        invariant
            it.seq() == text@,
            out@ == it.seq().take(it.index()),
    {
        assert(it.seq().take(it.index() + 1) =~= it.seq().take(it.index()).push(c));
        out.push(c);
    }
    assert(text@.take(text@.len() as int) =~= text@);
    out
}

/// The number of bytes that `text` takes in UTF-8.
pub(crate) fn byte_count(text: &str) -> (n: usize)
    ensures
        n == byte_len(text@),
{
    text.as_bytes().len()
}

/// The pieces `from..to` of `parts`, written one after another.
pub(crate) fn join(parts: &Vec<String>, from: usize, to: usize) -> (text: String)
    requires
        from <= to <= parts.len(),
    ensures
        text@ == concat(views(parts@).subrange(from as int, to as int)),
{
    let mut text = String::new();
    let mut i: usize = from;
    assert(views(parts@).subrange(from as int, from as int) =~= Seq::empty());
    while i < to
        invariant
            from <= i <= to <= parts.len(),
            text@ == concat(views(parts@).subrange(from as int, i as int)),
        decreases to - i,
    {
        proof {
            lemma_concat_step(views(parts@), from as int, i as int);
        }
        text.append(parts[i].as_str());
        i += 1;
    }
    text
}

} // verus!
