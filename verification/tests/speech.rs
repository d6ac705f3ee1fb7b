use clack::speech::{Utterance, UtteranceManager};

fn say(text: &str) -> Utterance {
    Utterance::from(text)
}

#[test]
fn speech_utterance_keeps_text() {
    let u = Utterance::new(String::from("hello"));
    assert_eq!(u.text(), "hello");
    assert_eq!(u.clone(), say("hello"));
}

#[test]
fn speech_queue_is_first_in_first_out() {
    let mut manager = UtteranceManager::new();
    manager.say(say("one"));
    manager.say(say("two"));
    assert_eq!(manager.speak_next_or_wait(), Some(say("one")));
    assert_eq!(manager.speak_next_or_wait(), Some(say("two")));
    assert_eq!(manager.speak_next_or_wait(), None);
}

#[test]
fn speech_say_next_goes_first() {
    let mut manager = UtteranceManager::new();
    manager.say(say("one"));
    manager.say_next(say("zero"));
    assert_eq!(manager.speak_next_or_wait(), Some(say("zero")));
    assert_eq!(manager.speak_next_or_wait(), Some(say("one")));
}

#[test]
fn speech_stop_terminates_only_when_speaking() {
    let mut manager = UtteranceManager::new();
    assert!(!manager.stop());
    manager.say(say("one"));
    assert!(!manager.stop());
    manager.speak_next_or_wait();
    assert!(manager.stop());
    assert!(!manager.stop());
    manager.speak_next_or_wait();
    assert!(!manager.stop());
}

#[test]
fn speech_interrupt_goes_first_and_terminates() {
    let mut manager = UtteranceManager::new();
    manager.say(say("one"));
    manager.say(say("two"));
    manager.speak_next_or_wait();
    assert!(manager.interrupt_and_say(say("now")));
    assert_eq!(manager.speak_next_or_wait(), Some(say("now")));
    assert_eq!(manager.speak_next_or_wait(), Some(say("two")));
    assert!(manager.interrupt_and_say(say("again")));
    assert!(!manager.interrupt_and_say(say("and again")));
}

#[test]
fn speech_clear_and_say_leaves_one() {
    let mut manager = UtteranceManager::new();
    manager.say(say("one"));
    manager.say(say("two"));
    manager.clear_and_say(say("only"));
    assert_eq!(manager.speak_next_or_wait(), Some(say("only")));
    assert_eq!(manager.speak_next_or_wait(), None);
    manager.say(say("one"));
    manager.clear();
    assert_eq!(manager.speak_next_or_wait(), None);
}
