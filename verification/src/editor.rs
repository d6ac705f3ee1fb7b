//! What a key press means for the cursor, the view and the ear: cursor
//! movement, scrolling, the quit dialogue, and the sounds that answer an
//! editing step.

use crate::document::{width_of, Document};
use crate::row::{word_match, Row};
use crate::segment::{chars_of, push_char, words_of};
use crate::sound::{
    each_to_its_end, narration, playback_views, Audible, Playback, Sound, SoundManager,
    SoundView, Tone, Utterance, DEFAULT_RATE_WPM,
};
use crate::utils::{speakable, string_to_speakable_tokens};
use vstd::prelude::*;
use vstd::string::*;

verus! {

/// A place in a document: column `x` in row `y`, both counted in grapheme
/// clusters.
#[derive(Clone, Copy, Debug, PartialEq, Eq, Structural)]
pub struct Position {
    pub x: usize,
    pub y: usize,
}

impl Default for Position {
    fn default() -> (p: Position)
        ensures
            p.x == 0,
            p.y == 0,
    {
        Position { x: 0, y: 0 }
    }
}

/// The keys that move the cursor.
#[derive(Clone, Copy, Debug, PartialEq, Eq, Structural)]
pub enum NavigationKey {
    Up,
    Down,
    Left,
    Right,
    PageUp,
    PageDown,
    Home,
    End,
}

/// Whether a step past the edge of a row goes on in the neighbouring row.
#[derive(Clone, Copy, Debug, PartialEq, Eq, Structural)]
pub enum WrappingBehavior {
    Wrap,
    NoWrap,
    Default,
}

/// Where the quit dialogue stands.
#[derive(Clone, Copy, Debug, PartialEq, Eq, Structural)]
pub enum QuitStatus {
    Default,
    Confirming,
    Quitting,
}

/// The modes whose entry is announced by a pair of tones.
#[derive(Clone, Copy, Debug, PartialEq, Eq, Structural)]
pub enum Mode {
    Editing,
    Quitting,
}

/// The outcome of a cursor key: where the cursor stands now, and whether
/// the step ran against an edge, which is answered by a tone.
#[derive(Clone, Copy, Debug, PartialEq, Eq, Structural)]
pub struct CursorMove {
    pub position: Position,
    pub blocked: bool,
}

/// Whether steps wrap, given the editor's setting for keys that leave it
/// open.
pub open spec fn wraps(behavior: WrappingBehavior, setting: bool) -> bool {
    match behavior {
        WrappingBehavior::Default => setting,
        WrappingBehavior::Wrap => true,
        WrappingBehavior::NoWrap => false,
    }
}

/// The step runs against an edge: up from the first row, left from the
/// start or right from the end of a row when the step does not wrap into a
/// neighbouring row.
pub open spec fn step_blocked(
    rows: Seq<Seq<char>>,
    cursor: Position,
    key: NavigationKey,
    wrap: bool,
) -> bool {
    match key {
        NavigationKey::Up => cursor.y == 0,
        NavigationKey::Left => cursor.x == 0 && !(cursor.y > 0 && wrap),
        NavigationKey::Right => cursor.x >= width_of(rows, cursor.y as int) && !(cursor.y
            < rows.len() && wrap),
        _ => false,
    }
}

/// Column and row after the step, before the column is cut down to the
/// width of the row reached. `page` is the number of rows that a page key
/// moves by.
pub open spec fn stepped(
    rows: Seq<Seq<char>>,
    cursor: Position,
    key: NavigationKey,
    wrap: bool,
    page: int,
) -> (int, int) {
    let x = cursor.x as int;
    let y = cursor.y as int;
    let height = rows.len() as int;
    let width = width_of(rows, y);
    match key {
        NavigationKey::Up => (x, if y == 0 { 0 } else { y - 1 }),
        NavigationKey::Down => (x, if y < height { y + 1 } else { y }),
        NavigationKey::Left => if x > 0 {
            (x - 1, y)
        } else if y > 0 && wrap {
            (width_of(rows, y - 1), y - 1)
        } else {
            (x, y)
        },
        NavigationKey::Right => if x < width {
            (x + 1, y)
        } else if y < height && wrap {
            (0, y + 1)
        } else {
            (x, y)
        },
        NavigationKey::PageUp => (x, if y > page { y - page } else { 0 }),
        NavigationKey::PageDown => (x, if y + page < height { y + page } else { height }),
        NavigationKey::Home => (0, y),
        NavigationKey::End => (width, y),
    }
}

/// The cursor after the step: the column never lies beyond the end of the
/// row reached.
pub open spec fn moved(
    rows: Seq<Seq<char>>,
    cursor: Position,
    key: NavigationKey,
    wrap: bool,
    page: int,
) -> (int, int) {
    let (x, y) = stepped(rows, cursor, key, wrap, page);
    let width = width_of(rows, y);
    (if x > width { width } else { x }, y)
}

/// The offset of the view along one axis after the cursor moved to `pos`:
/// unchanged while the cursor is inside the `extent` cells from `off`,
/// otherwise moved just far enough to show it.
pub open spec fn scrolled(pos: usize, off: usize, extent: usize) -> usize {
    if pos < off {
        pos
    } else if pos >= off.saturating_add(extent) {
        pos.saturating_sub(extent).saturating_add(1)
    } else {
        off
    }
}

/// The quit dialogue after a quit request: a first request on a changed
/// document asks for confirmation, any other request quits.
pub open spec fn quit_requested(status: QuitStatus, dirty: bool) -> QuitStatus {
    if dirty && status == QuitStatus::Default {
        QuitStatus::Confirming
    } else {
        QuitStatus::Quitting
    }
}

/// The digit for a number below ten.
pub open spec fn digit(d: nat) -> char {
    if d == 0 {
        '0'
    } else if d == 1 {
        '1'
    } else if d == 2 {
        '2'
    } else if d == 3 {
        '3'
    } else if d == 4 {
        '4'
    } else if d == 5 {
        '5'
    } else if d == 6 {
        '6'
    } else if d == 7 {
        '7'
    } else if d == 8 {
        '8'
    } else {
        '9'
    }
}

/// A number in decimal digits, without leading zeros.
pub open spec fn decimal(n: nat) -> Seq<char>
    decreases n,
{
    if n < 10 {
        seq![digit(n)]
    } else {
        decimal(n / 10).push(digit(n % 10))
    }
}

/// The phrase that tells where the cursor is, rows and columns counted
/// from one. The full form is a sentence of its own.
pub open spec fn location_phrase(cursor: Position, full: bool) -> Seq<char> {
    let row = decimal((cursor.y + 1) as nat);
    let column = decimal((cursor.x + 1) as nat);
    if full {
        "Row "@ + row + ", Column "@ + column + "."@
    } else {
        "Row "@ + row + ", column "@ + column
    }
}

/// A word spelled out: each character followed by a comma and a space.
pub open spec fn spelled(word: Seq<char>) -> Seq<char>
    decreases word.len(),
{
    if word.len() == 0 {
        Seq::empty()
    } else {
        spelled(word.drop_last()).push(word.last()).push(',').push(' ')
    }
}

/// `word` is the word at cluster `at` of the row `text`: the token found
/// there, or nothing when there is none.
pub open spec fn is_word_at(text: Seq<char>, at: int, word: Seq<char>) -> bool {
    ||| exists|k: int| word_match(text, at, k) && word == #[trigger] words_of(text)[k]
    ||| (forall|k: int| !word_match(text, at, k)) && word.len() == 0
}

/// `word` is the word just in front of the cursor; nothing in a row that
/// the document does not have.
pub open spec fn is_current_word(rows: Seq<Seq<char>>, cursor: Position, word: Seq<char>) -> bool {
    if cursor.y < rows.len() {
        is_word_at(rows[cursor.y as int], cursor.x.saturating_sub(1) as int, word)
    } else {
        word.len() == 0
    }
}

/// An utterance of the speakable form of `text` at the default rate.
pub open spec fn spoken_form(text: Seq<char>) -> SoundView {
    SoundView::Utterance { text: speakable(text), rate_wpm: DEFAULT_RATE_WPM }
}

/// An utterance of `text` as it stands, at the default rate.
pub open spec fn said(text: Seq<char>) -> SoundView {
    SoundView::Utterance { text, rate_wpm: DEFAULT_RATE_WPM }
}

/// A tone as the scheduler sees it.
pub open spec fn tone(frequency: u32, duration: u32, volume: u32) -> SoundView {
    SoundView::Tone(Tone { frequency, duration, volume })
}

/// The two tones that announce a mode: rising into editing, falling on the
/// way out.
pub open spec fn mode_tones(mode: Mode) -> Seq<SoundView> {
    match mode {
        Mode::Editing => seq![tone(440_000, 60, 500), tone(660_000, 100, 500)],
        Mode::Quitting => seq![tone(660_000, 100, 500), tone(440_000, 60, 500)],
    }
}

/// Whether `c` is a letter or a digit, as `char::is_alphanumeric` says.
pub uninterp spec fn alphanumeric(c: char) -> bool;

/// Every character of `word` is a letter or a digit.
pub open spec fn all_alphanumeric(word: Seq<char>) -> bool {
    forall|i: int| 0 <= i < word.len() ==> alphanumeric(#[trigger] word[i])
}

/// What is spoken when `c` is typed behind `word`: nothing for a letter or
/// digit; for any other character the word it closes, if that is made of
/// letters and digits only, and then the character itself.
pub open spec fn typed_sounds(word: Seq<char>, c: char) -> Seq<SoundView> {
    if alphanumeric(c) {
        Seq::empty()
    } else if all_alphanumeric(word) {
        seq![spoken_form(word), spoken_form(seq![c])]
    } else {
        seq![spoken_form(seq![c])]
    }
}

/// Calls `char::is_alphanumeric`. Trusted: the result is what
/// `alphanumeric` names.
#[verifier::external_body]
fn is_alphanumeric(c: char) -> (b: bool)
    ensures
        b == alphanumeric(c),
{
    c.is_alphanumeric()
}

impl WrappingBehavior {
    /// Whether steps wrap, given the editor's setting for keys that leave
    /// it open.
    pub fn should_wrap(self, setting: bool) -> (wrap: bool)
        ensures
            wrap == wraps(self, setting),
    {
        match self {
            WrappingBehavior::Default => setting,
            WrappingBehavior::Wrap => true,
            WrappingBehavior::NoWrap => false,
        }
    }
}

/// Moves the cursor by one key press. `wrap` says whether a step past the
/// edge of a row goes on in the neighbouring row, `term_height` is the
/// number of rows that a page key moves by.
pub fn move_cursor(
    document: &Document,
    cursor: &Position,
    key: NavigationKey,
    wrap: bool,
    term_height: usize,
) -> (step: CursorMove)
    requires
        document.wf(),
    ensures
        (step.position.x as int, step.position.y as int) == moved(
            document.texts(),
            *cursor,
            key,
            wrap,
            term_height as int,
        ),
        step.blocked == step_blocked(document.texts(), *cursor, key, wrap),
{
    let mut x = cursor.x;
    let mut y = cursor.y;
    let mut blocked = false;
    let height = document.row_count();
    let width = document.row_len(y);
    match key {
        NavigationKey::Up => {
            if y == 0 {
                blocked = true;
            }
            y = y.saturating_sub(1);
        },
        NavigationKey::Down => {
            if y < height {
                y = y + 1;
            }
        },
        NavigationKey::Left => {
            if x > 0 {
                x = x - 1;
            } else if y > 0 && wrap {
                y = y - 1;
                x = document.row_len(y);
            } else {
                blocked = true;
            }
        },
        NavigationKey::Right => {
            if x < width {
                x = x + 1;
            } else if y < height && wrap {
                y = y + 1;
                x = 0;
            } else {
                blocked = true;
            }
        },
        NavigationKey::PageUp => {
            y = if y > term_height {
                y - term_height
            } else {
                0
            };
        },
        NavigationKey::PageDown => {
            y = if y.saturating_add(term_height) < height {
                y.saturating_add(term_height)
            } else {
                height
            };
        },
        NavigationKey::Home => {
            x = 0;
        },
        NavigationKey::End => {
            x = width;
        },
    }
    let reached = document.row_len(y);
    if x > reached {
        x = reached;
    }
    CursorMove { position: Position { x, y }, blocked }
}

/// The offset of the view after the cursor moved: each axis moves just far
/// enough to show the cursor. In a view with at least one cell along an
/// axis the cursor is inside it afterwards.
pub fn scroll(cursor: &Position, offset: &Position, width: usize, height: usize) -> (view: Position)
    ensures
        view.x == scrolled(cursor.x, offset.x, width),
        view.y == scrolled(cursor.y, offset.y, height),
        width > 0 ==> view.x <= cursor.x < view.x + width,
        height > 0 ==> view.y <= cursor.y < view.y + height,
{
    let mut view = *offset;
    if cursor.y < view.y {
        view.y = cursor.y;
    } else if cursor.y >= view.y.saturating_add(height) {
        view.y = cursor.y.saturating_sub(height).saturating_add(1);
    }
    if cursor.x < view.x {
        view.x = cursor.x;
    } else if cursor.x >= view.x.saturating_add(width) {
        view.x = cursor.x.saturating_sub(width).saturating_add(1);
    }
    view
}

/// The quit dialogue after a quit request.
pub fn request_quit(status: QuitStatus, dirty: bool) -> (next: QuitStatus)
    ensures
        next == quit_requested(status, dirty),
{
    match status {
        QuitStatus::Default => if dirty {
            QuitStatus::Confirming
        } else {
            QuitStatus::Quitting
        },
        _ => QuitStatus::Quitting,
    }
}

fn digit_char(d: u128) -> (c: char)
    requires
        d < 10,
    ensures
        c == digit(d as nat),
{
    if d == 0 {
        '0'
    } else if d == 1 {
        '1'
    } else if d == 2 {
        '2'
    } else if d == 3 {
        '3'
    } else if d == 4 {
        '4'
    } else if d == 5 {
        '5'
    } else if d == 6 {
        '6'
    } else if d == 7 {
        '7'
    } else if d == 8 {
        '8'
    } else {
        '9'
    }
}

/// Appends `n` in decimal digits.
fn push_decimal(out: &mut String, n: u128)
    ensures
        final(out)@ == old(out)@ + decimal(n as nat),
    decreases n,
{
    if n >= 10 {
        push_decimal(out, n / 10);
    }
    push_char(out, digit_char(n % 10));
    assert(final(out)@ =~= old(out)@ + decimal(n as nat));
}

/// The phrase that tells where the cursor is.
pub fn location(cursor: &Position, full: bool) -> (phrase: String)
    ensures
        phrase@ == location_phrase(*cursor, full),
{
    let mut phrase = String::from_str("Row ");
    push_decimal(&mut phrase, cursor.y as u128 + 1);
    if full {
        phrase.append(", Column ");
    } else {
        phrase.append(", column ");
    }
    push_decimal(&mut phrase, cursor.x as u128 + 1);
    if full {
        phrase.append(".");
    }
    assert(phrase@ =~= location_phrase(*cursor, full));
    phrase
}

/// Tells where the cursor is, ahead of everything queued, cutting short
/// what is playing. The result says whether a running speech process has
/// to be terminated.
pub fn say_current_location(manager: &mut SoundManager, cursor: &Position) -> (terminate: bool)
    ensures
        terminate == old(manager).must_terminate(),
        final(manager).current() is None,
        final(manager).queue() == seq![said(location_phrase(*cursor, true))] + old(
            manager,
        ).queue(),
{
    manager.interrupt_and_play(Sound::Utterance(Utterance::new(location(cursor, true))))
}

/// Queues where the cursor is as the next thing to say; what is playing
/// goes on.
pub fn announce_location(manager: &mut SoundManager, cursor: &Position)
    ensures
        final(manager).current() == old(manager).current(),
        final(manager).queue() == seq![said(location_phrase(*cursor, false))] + old(
            manager,
        ).queue(),
{
    manager.prepend(Sound::Utterance(Utterance::new(location(cursor, false))));
}

/// The word spelled out, for speaking letter by letter.
pub fn spell(word: &str) -> (out: String)
    ensures
        out@ == spelled(word@),
{
    let chars = chars_of(word);
    let mut out = String::new();
    let mut i: usize = 0;
    assert(chars@.take(0) =~= Seq::empty());
    while i < chars.len()
        invariant
            i <= chars.len(),
            out@ == spelled(chars@.take(i as int)),
        decreases chars.len() - i,
    {
        assert(chars@.take(i + 1).drop_last() =~= chars@.take(i as int));
        push_char(&mut out, chars[i]);
        push_char(&mut out, ',');
        push_char(&mut out, ' ');
        i += 1;
    }
    assert(chars@.take(chars.len() as int) =~= chars@);
    out
}

/// The word just in front of the cursor; empty where there is none.
pub fn get_current_word(document: &Document, cursor: &Position) -> (word: String)
    requires
        document.wf(),
    ensures
        is_current_word(document.texts(), *cursor, word@),
{
    match document.get_row(cursor.y) {
        Some(row) => {
            assert(row.text() == document.texts()[cursor.y as int]);
            match row.get_word_at(cursor.x.saturating_sub(1)) {
                Some(word) => word,
                None => String::new(),
            }
        },
        None => String::new(),
    }
}

/// Speaks the speakable form of `text` at once and to its end: a typed
/// character, or the word that it closes.
pub fn speak_character(text: &str) -> (request: Playback)
    ensures
        request.sound@ == spoken_form(text@),
        request.wait,
{
    Utterance::new(string_to_speakable_tokens(text, None)).play_and_wait()
}

/// Queues the narration of the row under the cursor; of an empty row where
/// the document has none there.
pub fn speak_current_row(manager: &mut SoundManager, document: &Document, cursor: &Position)
    ensures
        final(manager).current() == old(manager).current(),
        final(manager).queue() == old(manager).queue() + narration(
            if cursor.y < document.texts().len() {
                document.texts()[cursor.y as int]
            } else {
                Seq::empty()
            },
            false,
        ),
{
    match document.get_row(cursor.y) {
        Some(row) => {
            assert(row.text() == document.texts()[cursor.y as int]);
            manager.play_row(row);
        },
        None => {
            let empty = Row::default();
            manager.play_row(&empty);
        },
    }
}

/// Speaks what typing `c` behind `word` calls for, at once and each
/// utterance to its end.
pub fn typed_feedback(word: &str, c: char) -> (requests: Vec<Playback>)
    ensures
        playback_views(requests@) == each_to_its_end(typed_sounds(word@, c)),
{
    let mut requests: Vec<Playback> = Vec::new();
    if is_alphanumeric(c) {
        assert(playback_views(requests@) =~= each_to_its_end(typed_sounds(word@, c)));
        return requests;
    }
    let chars = chars_of(word);
    let mut i: usize = 0;
    let mut plain = true;
    while i < chars.len()
        invariant
            i <= chars.len(),
            plain == all_alphanumeric(chars@.take(i as int)),
        decreases chars.len() - i,
    {
        let here = is_alphanumeric(chars[i]);
        proof {
            let shorter = chars@.take(i as int);
            let longer = chars@.take(i + 1);
            if plain && here {
                assert forall|k: int| 0 <= k < longer.len() implies alphanumeric(
                    #[trigger] longer[k],
                ) by {
                    if k < i {
                        assert(longer[k] == shorter[k]);
                    }
                }
            } else if !here {
                assert(longer[i as int] == chars[i as int]);
            } else {
                let k = choose|k: int| 0 <= k < shorter.len() && !alphanumeric(shorter[k]);
                assert(longer[k] == shorter[k]);
            }
        }
        plain = plain && here;
        i += 1;
    }
    assert(chars@.take(chars.len() as int) =~= chars@);
    if plain {
        requests.push(speak_character(word));
    }
    let mut typed = String::new();
    push_char(&mut typed, c);
    assert(typed@ =~= seq![c]);
    requests.push(speak_character(typed.as_str()));
    assert(playback_views(requests@) =~= each_to_its_end(typed_sounds(word@, c)));
    requests
}

/// Plays the two tones that announce a mode, each to its end.
pub fn change_mode(mode: Mode) -> (requests: Vec<Playback>)
    ensures
        playback_views(requests@) == each_to_its_end(mode_tones(mode)),
{
    let low = Tone::new(440_000, 60, 500).play_and_wait();
    let high = Tone::new(660_000, 100, 500).play_and_wait();
    let requests = match mode {
        Mode::Editing => vec![low, high],
        Mode::Quitting => vec![high, low],
    };
    assert(playback_views(requests@) =~= each_to_its_end(mode_tones(mode)));
    requests
}

/// Plays the tone that answers a search hit.
pub fn play_success_sound() -> (request: Playback)
    ensures
        request.sound@ == tone(880_000, 60, 500),
        request.wait,
{
    Tone::new(880_000, 60, 500).play_and_wait()
}

/// Plays the three short tones that close a search.
pub fn play_noop_sound() -> (requests: Vec<Playback>)
    ensures
        playback_views(requests@) == each_to_its_end(Seq::new(3, |i: int| tone(660_000, 10, 250))),
{
    let requests = vec![
        Tone::new(660_000, 10, 250).play_and_wait(),
        Tone::new(660_000, 10, 250).play_and_wait(),
        Tone::new(660_000, 10, 250).play_and_wait(),
    ];
    assert(playback_views(requests@) =~= each_to_its_end(
        Seq::new(3, |i: int| tone(660_000, 10, 250)),
    ));
    requests
}

/// Plays the tone that answers a step against an edge.
pub fn play_blocked_navigation_sound() -> (request: Playback)
    ensures
        request.sound@ == tone(440_000, 200, 500),
        request.wait,
{
    Tone::new(440_000, 200, 500).play_and_wait()
}

} // verus!
