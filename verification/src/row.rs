//! A line of text indexed by grapheme cluster.

use crate::segment::{
    byte_count, byte_len, concat, find_bytes, first_match, graphemes, graphemes_of, join,
    last_match, lemma_concat_add, lemma_concat_empty, lemma_concat_step, occurs_at, push_char,
    rfind_bytes, segmented, token_views, views, word_bound_indices, words_of,
};
use crate::sound::{
    each_to_its_end, narrate, narration, playback_views, sound_views, Playback, SoundManager,
};
use crate::utils::SearchDirection;
use vstd::prelude::*;
use vstd::string::*;
use vstd::utf8::encode_utf8;

verus! {

/// One line of a document: its text and the cached number of grapheme
/// clusters in it.
pub struct Row {
    string: String,
    len: usize,
}

/// The text of a row after `c` is inserted in front of cluster `at`, or at
/// the end when the row has no such cluster.
pub open spec fn inserted(text: Seq<char>, at: int, c: char) -> Seq<char> {
    let clusters = graphemes_of(text);
    if at >= clusters.len() {
        text.push(c)
    } else {
        concat(clusters.take(at)).push(c) + concat(clusters.skip(at))
    }
}

/// The text of a row after cluster `at` is removed; unchanged when the row
/// has no such cluster.
pub open spec fn deleted(text: Seq<char>, at: int) -> Seq<char> {
    let clusters = graphemes_of(text);
    if at >= clusters.len() {
        text
    } else {
        concat(clusters.take(at)) + concat(clusters.skip(at + 1))
    }
}

/// The text in front of cluster `at` (all of it when `at` is past the end).
pub open spec fn head_text(text: Seq<char>, at: int) -> Seq<char> {
    let clusters = graphemes_of(text);
    if at >= clusters.len() {
        concat(clusters)
    } else {
        concat(clusters.take(at))
    }
}

/// The text from cluster `at` on (empty when `at` is past the end).
pub open spec fn tail_text(text: Seq<char>, at: int) -> Seq<char> {
    let clusters = graphemes_of(text);
    if at >= clusters.len() {
        Seq::empty()
    } else {
        concat(clusters.skip(at))
    }
}

/// How a cluster is shown on screen: a tab as one space, anything else as
/// it is.
pub open spec fn shown(cluster: Seq<char>) -> Seq<char> {
    if cluster == seq!['\t'] {
        seq![' ']
    } else {
        cluster
    }
}

/// The clusters `start..end` of `text` as shown on screen, both bounds cut
/// down to the row's length.
pub open spec fn rendered(text: Seq<char>, start: int, end: int) -> Seq<char> {
    let clusters = graphemes_of(text);
    let hi = if end <= clusters.len() { end } else { clusters.len() as int };
    let lo = if start <= hi { start } else { hi };
    concat(clusters.subrange(lo, hi).map_values(|c: Seq<char>| shown(c)))
}

/// The first cluster of the window that a search from column `at` covers.
pub open spec fn window_start(at: int, direction: SearchDirection) -> int {
    match direction {
        SearchDirection::Forward => at,
        SearchDirection::Backward => 0,
    }
}

/// One past the last cluster of the window that a search from column `at`
/// covers, in a row of `len` clusters.
pub open spec fn window_end(len: int, at: int, direction: SearchDirection) -> int {
    match direction {
        SearchDirection::Forward => len,
        SearchDirection::Backward => at,
    }
}

/// The byte offset of cluster `g` inside the window that starts at cluster
/// `lo`.
pub open spec fn offset_in_window(clusters: Seq<Seq<char>>, lo: int, g: int) -> nat {
    byte_len(concat(clusters.subrange(lo, g)))
}

/// `offset` is where the search for `query` lands in `window`: the first
/// occurrence going forward, the last going backward.
pub open spec fn lands_at(
    window: Seq<char>,
    query: Seq<char>,
    direction: SearchDirection,
    offset: int,
) -> bool {
    match direction {
        SearchDirection::Forward => first_match(encode_utf8(window), encode_utf8(query), offset),
        SearchDirection::Backward => last_match(encode_utf8(window), encode_utf8(query), offset),
    }
}

/// Cluster `g` is the answer of a search for `query` in the row `text` from
/// column `at`: the search lands on the byte at which cluster `g` starts, and
/// `g` is the first cluster of the window that starts there.
pub open spec fn row_match(
    text: Seq<char>,
    query: Seq<char>,
    at: int,
    direction: SearchDirection,
    g: int,
) -> bool {
    let clusters = graphemes_of(text);
    let lo = window_start(at, direction);
    let hi = window_end(clusters.len() as int, at, direction);
    &&& 0 <= at <= clusters.len()
    &&& lo <= g < hi
    &&& lands_at(
        concat(clusters.subrange(lo, hi)),
        query,
        direction,
        offset_in_window(clusters, lo, g) as int,
    )
    &&& forall|j: int|
        lo <= j < g ==> #[trigger] offset_in_window(clusters, lo, j) != offset_in_window(
            clusters,
            lo,
            g,
        )
}

/// The byte offset at which cluster `at` starts.
pub open spec fn cluster_start(text: Seq<char>, at: int) -> nat {
    byte_len(concat(graphemes_of(text).take(at)))
}

/// The byte offset at which token `k` ends.
pub open spec fn token_end(tokens: Seq<Seq<char>>, k: int) -> nat {
    byte_len(concat(tokens.take(k))) + byte_len(tokens[k])
}

/// Token `k` is the word at cluster `at`: the first token that ends after
/// the byte at which the cluster starts.
pub open spec fn word_match(text: Seq<char>, at: int, k: int) -> bool {
    let tokens = words_of(text);
    &&& 0 <= at < graphemes_of(text).len()
    &&& 0 <= k < tokens.len()
    &&& token_end(tokens, k) > cluster_start(text, at)
    &&& forall|j: int| 0 <= j < k ==> token_end(tokens, j) <= cluster_start(text, at)
}

/// Inserting a character in front of cluster `at` and then deleting cluster
/// `at` gives back the text of the row, whenever the inserted character
/// stands as a cluster of its own and leaves the other clusters as they were.
pub proof fn lemma_insert_then_delete(row: Row, at: int, c: char)
    requires
        row.wf(),
        0 <= at <= row.clusters().len(),
        graphemes_of(inserted(row.text(), at, c)) == row.clusters().insert(at, seq![c]),
    ensures
        deleted(inserted(row.text(), at, c), at) == row.text(),
{
    let clusters = row.clusters();
    let widened = clusters.insert(at, seq![c]);
    assert(widened.take(at) =~= clusters.take(at));
    assert(widened.skip(at + 1) =~= clusters.skip(at));
    lemma_concat_add(clusters.take(at), clusters.skip(at));
    assert(clusters.take(at) + clusters.skip(at) =~= clusters);
}

/// Cutting a row in front of cluster `at` and appending the tail to the head
/// gives back the text of the row.
pub proof fn lemma_split_then_append(row: Row, at: int)
    requires
        row.wf(),
        0 <= at <= row.clusters().len(),
    ensures
        head_text(row.text(), at) + tail_text(row.text(), at) == row.text(),
{
    let clusters = row.clusters();
    if at < clusters.len() {
        lemma_concat_add(clusters.take(at), clusters.skip(at));
        assert(clusters.take(at) + clusters.skip(at) =~= clusters);
    } else {
        assert(concat(clusters) + Seq::<char>::empty() =~= concat(clusters));
    }
}

/// A search in a row has at most one answer.
pub proof fn lemma_row_match_unique(
    text: Seq<char>,
    query: Seq<char>,
    at: int,
    direction: SearchDirection,
    g: int,
    h: int,
)
    requires
        row_match(text, query, at, direction, g),
        row_match(text, query, at, direction, h),
    ensures
        g == h,
{
    let clusters = graphemes_of(text);
    let lo = window_start(at, direction);
    let a = offset_in_window(clusters, lo, g);
    let b = offset_in_window(clusters, lo, h);
    assert(a == b) by {
        if a < b {
        } else if b < a {
        }
    }
}

impl Default for Row {
    /// The empty row.
    fn default() -> (row: Row)
        ensures
            row.wf(),
            row.text() == Seq::<char>::empty(),
            row.count() == 0,
    {
        let row = Row::from("");
        proof {
            reveal_strlit("");
            assert(""@ =~= Seq::<char>::empty());
            lemma_concat_empty(row.clusters());
        }
        row
    }
}

impl View for Row {
    type V = Seq<char>;

    /// A row is seen as its text.
    open spec fn view(&self) -> Seq<char> {
        self.text()
    }
}

impl Row {
    /// The stored text.
    pub closed spec fn text(&self) -> Seq<char> {
        self.string@
    }

    /// The cached cluster count.
    pub closed spec fn count(&self) -> nat {
        self.len as nat
    }

    /// The grapheme clusters of the stored text.
    pub open spec fn clusters(&self) -> Seq<Seq<char>> {
        graphemes_of(self.text())
    }

    /// The cached count is the true cluster count, and the clusters spell the
    /// text.
    pub open spec fn wf(&self) -> bool {
        &&& self.count() == self.clusters().len()
        &&& segmented(self.text())
    }

    /// A row holding `slice`.
    pub fn from(slice: &str) -> (row: Row)
        ensures
            row.wf(),
            row.text() == slice@,
    {
        let mut row = Row { string: String::from_str(slice), len: 0 };
        row.update_len();
        row
    }

    /// The number of grapheme clusters (cached).
    pub fn len(&self) -> (n: usize)
        ensures
            n == self.count(),
            self.wf() ==> n == self.clusters().len(),
    {
        self.len
    }

    /// The row's text.
    pub fn as_str(&self) -> (s: &str)
        ensures
            s@ == self.text(),
    {
        self.string.as_str()
    }

    pub fn is_empty(&self) -> (b: bool)
        ensures
            b == (self.count() == 0),
    {
        self.len == 0
    }

    /// Recounts the clusters of the stored text.
    pub fn update_len(&mut self)
        ensures
            final(self).text() == old(self).text(),
            final(self).wf(),
    {
        let parts = graphemes(self.string.as_str());
        self.len = parts.len();
    }

    /// Inserts `c` in front of cluster `at`, or at the end when `at` is not
    /// below the length.
    pub fn insert(&mut self, at: usize, c: char)
        requires
            old(self).wf(),
        ensures
            final(self).wf(),
            final(self).text() == inserted(old(self).text(), at as int, c),
    {
        if at >= self.len {
            push_char(&mut self.string, c);
        } else {
            let parts = graphemes(self.string.as_str());
            let mut result = join(&parts, 0, at);
            push_char(&mut result, c);
            let rest = join(&parts, at, parts.len());
            result.append(rest.as_str());
            assert(views(parts@).subrange(0, at as int) =~= views(parts@).take(at as int));
            assert(views(parts@).subrange(at as int, parts.len() as int) =~= views(parts@).skip(
                at as int,
            ));
            self.string = result;
        }
        self.update_len();
    }

    /// Removes cluster `at`; does nothing when the row has no such cluster.
    pub fn delete(&mut self, at: usize)
        requires
            old(self).wf(),
        ensures
            final(self).wf(),
            final(self).text() == deleted(old(self).text(), at as int),
    {
        if at >= self.len {
            return ;
        }
        let parts = graphemes(self.string.as_str());
        let mut result = join(&parts, 0, at);
        let rest = join(&parts, at + 1, parts.len());
        result.append(rest.as_str());
        assert(views(parts@).subrange(0, at as int) =~= views(parts@).take(at as int));
        assert(views(parts@).subrange(at as int + 1, parts.len() as int) =~= views(parts@).skip(
            at as int + 1,
        ));
        self.string = result;
        self.update_len();
    }

    /// Appends the text of `new`.
    pub fn append(&mut self, new: &Row)
        ensures
            final(self).wf(),
            final(self).text() == old(self).text() + new.text(),
    {
        self.string.append(new.string.as_str());
        self.update_len();
    }

    /// Cuts the row in front of cluster `at`: the row keeps the head and the
    /// tail is returned.
    pub fn split(&mut self, at: usize) -> (tail: Row)
        requires
            old(self).wf(),
        ensures
            final(self).wf(),
            tail.wf(),
            final(self).text() == head_text(old(self).text(), at as int),
            tail.text() == tail_text(old(self).text(), at as int),
    {
        let parts = graphemes(self.string.as_str());
        let cut = if at >= parts.len() {
            parts.len()
        } else {
            at
        };
        let head = join(&parts, 0, cut);
        let rest = join(&parts, cut, parts.len());
        assert(views(parts@).subrange(0, cut as int) =~= views(parts@).take(cut as int));
        assert(views(parts@).take(parts.len() as int) =~= views(parts@));
        assert(views(parts@).subrange(cut as int, parts.len() as int) =~= views(parts@).skip(
            cut as int,
        ));
        assert(views(parts@).skip(parts.len() as int) =~= Seq::empty());
        self.string = head;
        self.update_len();
        let mut tail = Row { string: rest, len: 0 };
        tail.update_len();
        tail
    }

    /// The clusters `start..end` as shown on screen.
    pub fn render(&self, start: usize, end: usize) -> (out: String)
        ensures
            out@ == rendered(self.text(), start as int, end as int),
    {
        let parts = graphemes(self.string.as_str());
        let hi = if end <= parts.len() {
            end
        } else {
            parts.len()
        };
        let lo = if start <= hi {
            start
        } else {
            hi
        };
        let ghost clusters = views(parts@);
        let ghost mapped = clusters.subrange(lo as int, hi as int).map_values(
            |c: Seq<char>| shown(c),
        );
        let tab = String::from_str("\t");
        let mut out = String::new();
        let mut i: usize = lo;
        assert(mapped.take(0) =~= Seq::empty());
        while i < hi
            invariant
                lo <= i <= hi <= parts.len(),
                tab@ == "\t"@,
                clusters == views(parts@),
                mapped == clusters.subrange(lo as int, hi as int).map_values(
                    |c: Seq<char>| shown(c),
                ),
                out@ == concat(mapped.take(i - lo)),
            decreases hi - i,
        {
            proof {
                lemma_concat_step(mapped, 0, i - lo);
                assert(mapped.subrange(0, i - lo + 1) =~= mapped.take(i - lo + 1));
                assert(mapped.subrange(0, i - lo) =~= mapped.take(i - lo));
                assert(mapped[i - lo] == shown(parts[i as int]@));
                reveal_strlit("\t");
                reveal_strlit(" ");
                assert("\t"@ =~= seq!['\t']);
                assert(" "@ =~= seq![' ']);
            }
            if parts[i] == tab {
                out.append(" ");
            } else {
                out.append(parts[i].as_str());
            }
            i += 1;
        }
        assert(mapped.take(hi - lo) =~= mapped);
        out
    }

    /// The row's text as UTF-8 bytes.
    pub fn as_bytes(&self) -> (bytes: &[u8])
        ensures
            bytes@ == encode_utf8(self.text()),
    {
        self.string.as_str().as_bytes()
    }

    /// The word token at cluster `at`, or `None` when the row has no such
    /// cluster.
    pub fn get_word_at(&self, at: usize) -> (word: Option<String>)
        requires
            self.wf(),
        ensures
            match word {
                Some(w) => exists|k: int|
                    word_match(self.text(), at as int, k) && w@ == #[trigger] words_of(
                        self.text(),
                    )[k],
                None => forall|k: int| !word_match(self.text(), at as int, k),
            },
    {
        if at >= self.len {
            return None;
        }
        let parts = graphemes(self.string.as_str());
        let before = join(&parts, 0, at);
        assert(views(parts@).subrange(0, at as int) =~= views(parts@).take(at as int));
        let start = byte_count(before.as_str());
        let tokens = word_bound_indices(self.string.as_str());
        let ghost words = words_of(self.text());
        let mut k: usize = 0;
        while k < tokens.len()
            invariant
                k <= tokens.len(),
                words == words_of(self.text()),
                words == token_views(tokens@),
                start == cluster_start(self.text(), at as int),
                at < graphemes_of(self.text()).len(),
                forall|i: int|
                    0 <= i < tokens.len() ==> (#[trigger] tokens[i]).0 == byte_len(
                        concat(words.take(i)),
                    ),
                forall|j: int| 0 <= j < k ==> token_end(words, j) <= start,
            decreases tokens.len() - k,
        {
            let begin = tokens[k].0;
            let size = byte_count(tokens[k].1.as_str());
            assert(words[k as int] == tokens[k as int].1@);
            assert(token_end(words, k as int) == begin + size);
            if begin > start || size > start - begin {
                assert(word_match(self.text(), at as int, k as int));
                return Some(tokens[k].1.clone());
            }
            k += 1;
        }
        None
    }

    /// Searches the row for `query` from column `at`: forward through the
    /// clusters from `at` on, backward through those in front of `at`. The
    /// answer is the cluster on whose first byte the search lands.
    pub fn find(&self, query: &str, at: usize, direction: SearchDirection) -> (found: Option<
        usize,
    >)
        requires
            self.wf(),
        ensures
            match found {
                Some(g) => row_match(self.text(), query@, at as int, direction, g as int),
                None => forall|g: int| !row_match(self.text(), query@, at as int, direction, g),
            },
    {
        if at > self.len {
            return None;
        }
        let parts = graphemes(self.string.as_str());
        let ghost clusters = views(parts@);
        let (lo, hi) = match direction {
            SearchDirection::Forward => (at, parts.len()),
            SearchDirection::Backward => (0, at),
        };
        let mut window = String::new();
        let mut offsets: Vec<usize> = Vec::new();
        let mut i: usize = lo;
        assert(clusters.subrange(lo as int, lo as int) =~= Seq::empty());
        while i < hi
            invariant
                lo <= i <= hi <= parts.len(),
                clusters == views(parts@),
                window@ == concat(clusters.subrange(lo as int, i as int)),
                offsets.len() == i - lo,
                forall|k: int|
                    0 <= k < offsets.len() ==> #[trigger] offsets[k] == offset_in_window(
                        clusters,
                        lo as int,
                        lo + k,
                    ),
            decreases hi - i,
        {
            proof {
                lemma_concat_step(clusters, lo as int, i as int);
            }
            offsets.push(byte_count(window.as_str()));
            window.append(parts[i].as_str());
            i += 1;
        }
        let landed = match direction {
            SearchDirection::Forward => find_bytes(window.as_str(), query),
            SearchDirection::Backward => rfind_bytes(window.as_str(), query),
        };
        assert(clusters == graphemes_of(self.text()));
        assert(lo == window_start(at as int, direction));
        assert(hi == window_end(clusters.len() as int, at as int, direction));
        match landed {
            None => {
                assert forall|g: int| !row_match(
                    self.text(),
                    query@,
                    at as int,
                    direction,
                    g,
                ) by {
                    let offset = offset_in_window(clusters, lo as int, g) as int;
                    assert(!occurs_at(encode_utf8(window@), encode_utf8(query@), offset));
                }
                None
            },
            Some(offset) => {
                assert(lands_at(window@, query@, direction, offset as int));
                let mut k: usize = 0;
                while k < offsets.len()
                    invariant
                        k <= offsets.len(),
                        offsets.len() == hi - lo,
                        lo <= hi <= parts.len(),
                        at <= clusters.len(),
                        clusters == graphemes_of(self.text()),
                        lo == window_start(at as int, direction),
                        hi == window_end(clusters.len() as int, at as int, direction),
                        window@ == concat(clusters.subrange(lo as int, hi as int)),
                        lands_at(window@, query@, direction, offset as int),
                        forall|j: int|
                            0 <= j < offsets.len() ==> #[trigger] offsets[j] == offset_in_window(
                                clusters,
                                lo as int,
                                lo + j,
                            ),
                        forall|j: int| 0 <= j < k ==> offsets[j] != offset,
                    decreases offsets.len() - k,
                {
                    if offsets[k] == offset {
                        assert forall|j: int| lo <= j < lo + k implies #[trigger] offset_in_window(
                            clusters,
                            lo as int,
                            j,
                        ) != offset_in_window(clusters, lo as int, lo + k) by {
                            assert(offsets[j - lo] != offset);
                        }
                        return Some(lo + k);
                    }
                    k += 1;
                }
                assert forall|g: int| !row_match(
                    self.text(),
                    query@,
                    at as int,
                    direction,
                    g,
                ) by {
                    if row_match(self.text(), query@, at as int, direction, g) {
                        assert(offsets[g - lo] != offset);
                    }
                }
                None
            },
        }
    }

    /// Plays the narration of the row at once, past the queue of `manager`:
    /// the indentation tones, then the spoken row, each to its end.
    pub fn play_blocking(&self, manager: &mut SoundManager) -> (requests: Vec<Playback>)
        ensures
            playback_views(requests@) == each_to_its_end(narration(self.text(), true)),
            final(manager).queue() == old(manager).queue(),
            final(manager).current() == old(manager).current(),
    {
        let sounds = narrate(self.string.as_str(), true);
        let ghost all = sound_views(sounds@);
        let mut requests: Vec<Playback> = Vec::new();
        let mut i: usize = 0;
        while i < sounds.len()
            invariant
                i <= sounds.len(),
                all == sound_views(sounds@),
                playback_views(requests@) == each_to_its_end(all.take(i as int)),
                manager.queue() == old(manager).queue(),
                manager.current() == old(manager).current(),
            decreases sounds.len() - i,
        {
            let ghost before = playback_views(requests@);
            let request = manager.play_and_wait(sounds[i].clone());
            requests.push(request);
            assert(playback_views(requests@) =~= before.push((request.sound@, true)));
            assert(each_to_its_end(all.take(i + 1)) =~= each_to_its_end(all.take(i as int)).push(
                (all[i as int], true),
            ));
            i += 1;
        }
        assert(all.take(sounds.len() as int) =~= all);
        requests
    }

    /// Queues the narration of the row with `manager`: the indentation
    /// tones, then the spoken row, behind what is already pending.
    pub fn play(&self, manager: &mut SoundManager)
        ensures
            final(manager).queue() == old(manager).queue() + narration(self.text(), false),
            final(manager).current() == old(manager).current(),
    {
        manager.append_all(narrate(self.string.as_str(), false));
    }
}

} // verus!
