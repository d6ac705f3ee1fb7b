use clack::document::Document;
use clack::editor::{
    announce_location, change_mode, get_current_word, location, move_cursor,
    play_blocked_navigation_sound, play_noop_sound, play_success_sound, request_quit,
    say_current_location, scroll, speak_character, speak_current_row, spell,
    typed_feedback, CursorMove, Mode, NavigationKey, Position, QuitStatus, WrappingBehavior,
};
use clack::sound::{Playback, Sound, SoundManager, Tone, Utterance};

fn at(x: usize, y: usize) -> Position {
    Position { x, y }
}

fn to_end(sound: Sound) -> Playback {
    Playback { sound, wait: true }
}

fn said(text: &str) -> Playback {
    to_end(Sound::Utterance(Utterance::from(text)))
}

fn sample() -> Document {
    Document::open("f", "hello\nhi\n\nlonger row")
}

fn go(doc: &Document, from: Position, key: NavigationKey, wrap: bool) -> CursorMove {
    move_cursor(doc, &from, key, wrap, 2)
}

#[test]
fn wrapping_behavior_resolves_default() {
    assert!(WrappingBehavior::Wrap.should_wrap(false));
    assert!(!WrappingBehavior::NoWrap.should_wrap(true));
    assert!(WrappingBehavior::Default.should_wrap(true));
    assert!(!WrappingBehavior::Default.should_wrap(false));
}

#[test]
fn cursor_up_at_top_is_blocked() {
    let doc = sample();
    let step = go(&doc, at(3, 0), NavigationKey::Up, false);
    assert_eq!(step, CursorMove { position: at(3, 0), blocked: true });
}

#[test]
fn cursor_up_clamps_column() {
    let doc = sample();
    let step = go(&doc, at(8, 3), NavigationKey::Up, false);
    assert_eq!(step, CursorMove { position: at(0, 2), blocked: false });
    let step = go(&doc, at(4, 0), NavigationKey::Down, false);
    assert_eq!(step, CursorMove { position: at(2, 1), blocked: false });
}

#[test]
fn cursor_down_stops_below_last_row() {
    let doc = sample();
    let step = go(&doc, at(3, 3), NavigationKey::Down, false);
    assert_eq!(step, CursorMove { position: at(0, 4), blocked: false });
    let step = go(&doc, at(0, 4), NavigationKey::Down, false);
    assert_eq!(step, CursorMove { position: at(0, 4), blocked: false });
}

#[test]
fn cursor_left_and_right_inside_row() {
    let doc = sample();
    assert_eq!(go(&doc, at(3, 0), NavigationKey::Left, false).position, at(2, 0));
    assert_eq!(go(&doc, at(3, 0), NavigationKey::Right, false).position, at(4, 0));
    assert!(!go(&doc, at(3, 0), NavigationKey::Right, false).blocked);
}

#[test]
fn cursor_left_at_row_start() {
    let doc = sample();
    let step = go(&doc, at(0, 1), NavigationKey::Left, true);
    assert_eq!(step, CursorMove { position: at(5, 0), blocked: false });
    let step = go(&doc, at(0, 1), NavigationKey::Left, false);
    assert_eq!(step, CursorMove { position: at(0, 1), blocked: true });
    let step = go(&doc, at(0, 0), NavigationKey::Left, true);
    assert_eq!(step, CursorMove { position: at(0, 0), blocked: true });
}

#[test]
fn cursor_right_at_row_end() {
    let doc = sample();
    let step = go(&doc, at(5, 0), NavigationKey::Right, true);
    assert_eq!(step, CursorMove { position: at(0, 1), blocked: false });
    let step = go(&doc, at(5, 0), NavigationKey::Right, false);
    assert_eq!(step, CursorMove { position: at(5, 0), blocked: true });
    let step = go(&doc, at(0, 4), NavigationKey::Right, true);
    assert_eq!(step, CursorMove { position: at(0, 4), blocked: true });
}

#[test]
fn cursor_page_keys() {
    let doc = sample();
    assert_eq!(go(&doc, at(1, 3), NavigationKey::PageUp, false).position, at(1, 1));
    assert_eq!(go(&doc, at(1, 2), NavigationKey::PageUp, false).position, at(1, 0));
    assert_eq!(go(&doc, at(1, 1), NavigationKey::PageUp, false).position, at(1, 0));
    assert_eq!(go(&doc, at(1, 0), NavigationKey::PageDown, false).position, at(0, 2));
    assert_eq!(go(&doc, at(1, 1), NavigationKey::PageDown, false).position, at(1, 3));
    assert_eq!(go(&doc, at(1, 2), NavigationKey::PageDown, false).position, at(0, 4));
    let far = move_cursor(&doc, &at(1, 1), NavigationKey::PageDown, false, usize::MAX);
    assert_eq!(far.position, at(0, 4));
}

#[test]
fn cursor_home_and_end() {
    let doc = sample();
    assert_eq!(go(&doc, at(3, 3), NavigationKey::Home, false).position, at(0, 3));
    assert_eq!(go(&doc, at(3, 3), NavigationKey::End, false).position, at(10, 3));
    assert_eq!(go(&doc, at(0, 4), NavigationKey::End, false).position, at(0, 4));
}

#[test]
fn scroll_follows_the_cursor() {
    assert_eq!(scroll(&at(3, 4), &at(0, 0), 80, 24), at(0, 0));
    assert_eq!(scroll(&at(3, 24), &at(0, 0), 80, 24), at(0, 1));
    assert_eq!(scroll(&at(100, 30), &at(0, 0), 80, 24), at(21, 7));
    assert_eq!(scroll(&at(2, 5), &at(10, 9), 80, 24), at(2, 5));
    assert_eq!(scroll(&at(usize::MAX, 0), &at(0, 0), 80, 24), at(usize::MAX - 79, 0));
}

#[test]
fn quit_asks_once_on_a_changed_document() {
    assert_eq!(request_quit(QuitStatus::Default, true), QuitStatus::Confirming);
    assert_eq!(request_quit(QuitStatus::Default, false), QuitStatus::Quitting);
    assert_eq!(request_quit(QuitStatus::Confirming, true), QuitStatus::Quitting);
    assert_eq!(request_quit(QuitStatus::Quitting, true), QuitStatus::Quitting);
}

#[test]
fn location_counts_from_one() {
    assert_eq!(location(&at(0, 0), true), "Row 1, Column 1.");
    assert_eq!(location(&at(9, 41), true), "Row 42, Column 10.");
    assert_eq!(location(&at(99, 1233), false), "Row 1234, column 100");
    assert_eq!(
        location(&at(usize::MAX, 0), false),
        format!("Row 1, column {}", usize::MAX as u128 + 1)
    );
}

#[test]
fn say_current_location_interrupts() {
    let mut manager = SoundManager::new();
    manager.append(Sound::Utterance(Utterance::from("long")));
    manager.append(Sound::Tone(Tone::new(1, 2, 3)));
    manager.play_next();
    assert!(say_current_location(&mut manager, &at(2, 0)));
    assert_eq!(
        manager.play_next_or_wait(),
        vec![
            Sound::Utterance(Utterance::from("Row 1, Column 3.")),
            Sound::Tone(Tone::new(1, 2, 3)),
        ]
    );
}

#[test]
fn announce_location_goes_first_without_interrupting() {
    let mut manager = SoundManager::new();
    manager.append(Sound::Utterance(Utterance::from("long")));
    manager.append(Sound::Tone(Tone::new(1, 2, 3)));
    manager.play_next();
    announce_location(&mut manager, &at(0, 6));
    assert_eq!(manager.playing(), Some(true));
    assert_eq!(
        manager.play_next_or_wait(),
        vec![
            Sound::Utterance(Utterance::from("Row 7, column 1")),
            Sound::Tone(Tone::new(1, 2, 3)),
        ]
    );
}

#[test]
fn spell_separates_letters() {
    assert_eq!(spell("abc"), "a, b, c, ");
    assert_eq!(spell(""), "");
    assert_eq!(spell("é"), "é, ");
}

#[test]
fn current_word_is_the_one_before_the_cursor() {
    let doc = Document::open("f", "let total = 1");
    assert_eq!(get_current_word(&doc, &at(3, 0)), "let");
    assert_eq!(get_current_word(&doc, &at(4, 0)), " ");
    assert_eq!(get_current_word(&doc, &at(9, 0)), "total");
    assert_eq!(get_current_word(&doc, &at(0, 0)), "let");
    assert_eq!(get_current_word(&doc, &at(0, 5)), "");
    assert_eq!(get_current_word(&doc, &at(40, 0)), "");
}

#[test]
fn speak_character_uses_speakable_form() {
    assert_eq!(speak_character("."), said(" dot "));
    assert_eq!(speak_character("a==b"), said("a double equals b"));
    let doc = Document::open("f", "can't stop");
    let word = get_current_word(&doc, &at(5, 0));
    assert_eq!(word, "can't");
    assert_eq!(speak_character(&word), said("can single-quote t"));
}

#[test]
fn speak_current_row_queues_narration() {
    let doc = Document::open("f", "x\n\ty.z");
    let mut manager = SoundManager::new();
    speak_current_row(&mut manager, &doc, &at(0, 1));
    speak_current_row(&mut manager, &doc, &at(0, 7));
    assert_eq!(
        manager.play_next_or_wait(),
        vec![
            Sound::Tone(Tone::new(293_333, 150, 500)),
            Sound::Utterance(Utterance::from("\ty dot z")),
            Sound::Utterance(Utterance::from("")),
        ]
    );
}

#[test]
fn typing_a_letter_says_nothing() {
    assert_eq!(typed_feedback("wor", 'd'), Vec::<Playback>::new());
    assert_eq!(typed_feedback("wor", '7'), Vec::<Playback>::new());
}

#[test]
fn typing_a_symbol_says_word_and_symbol() {
    assert_eq!(typed_feedback("word", '.'), vec![said("word"), said(" dot ")]);
    assert_eq!(typed_feedback("+", ' '), vec![said(" ")]);
    assert_eq!(typed_feedback("", '('), vec![said(""), said(" open paren ")]);
}

#[test]
fn mode_tones_rise_and_fall() {
    let low = Sound::Tone(Tone::new(440_000, 60, 500));
    let high = Sound::Tone(Tone::new(660_000, 100, 500));
    assert_eq!(change_mode(Mode::Editing), vec![to_end(low.clone()), to_end(high.clone())]);
    assert_eq!(change_mode(Mode::Quitting), vec![to_end(high), to_end(low)]);
}

#[test]
fn feedback_tones() {
    assert_eq!(play_success_sound(), to_end(Sound::Tone(Tone::new(880_000, 60, 500))));
    assert_eq!(
        play_blocked_navigation_sound(),
        to_end(Sound::Tone(Tone::new(440_000, 200, 500)))
    );
    let short = Sound::Tone(Tone::new(660_000, 10, 250));
    assert_eq!(
        play_noop_sound(),
        vec![to_end(short.clone()), to_end(short.clone()), to_end(short)]
    );
}
