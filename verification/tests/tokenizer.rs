use clack::utils::string_to_speakable_tokens;

#[test]
fn speakable_plain_text_is_unchanged() {
    assert_eq!(string_to_speakable_tokens("hello world 42", None), "hello world 42");
    assert_eq!(string_to_speakable_tokens("", None), "");
    assert_eq!(string_to_speakable_tokens("héllo", Some(3)), "héllo");
}

#[test]
fn speakable_replaces_symbol_with_spaced_phrase() {
    assert_eq!(string_to_speakable_tokens("a.b", None), "a dot b");
    assert_eq!(string_to_speakable_tokens("(", None), " open paren ");
    assert_eq!(string_to_speakable_tokens("x[i]", None), "x square bracket i close bracket ");
}

#[test]
fn speakable_long_literals_win_over_their_prefixes() {
    assert_eq!(string_to_speakable_tokens("a==b", None), "a double equals b");
    assert_eq!(string_to_speakable_tokens("a===b", None), "a triple equals b");
    assert_eq!(string_to_speakable_tokens("a<=b", None), "a less than or equal to b");
    assert_eq!(string_to_speakable_tokens("a=b", None), "a equals b");
    assert_eq!(string_to_speakable_tokens("i++", None), "i plus plus ");
    assert_eq!(string_to_speakable_tokens("__x", None), " dunder x");
}

#[test]
fn speakable_replaces_every_occurrence_without_overlap() {
    assert_eq!(string_to_speakable_tokens("a.b.c", None), "a dot b dot c");
    assert_eq!(
        string_to_speakable_tokens("=====", None),
        " triple equals  double equals "
    );
}

#[test]
fn speakable_later_rules_read_earlier_output() {
    assert_eq!(string_to_speakable_tokens("'", None), " single-quote ");
    assert_eq!(string_to_speakable_tokens("_", None), " underscore ");
}

#[test]
fn speakable_is_not_idempotent() {
    let once = string_to_speakable_tokens("'", None);
    let twice = string_to_speakable_tokens(&once, None);
    assert_eq!(once, " single-quote ");
    assert_eq!(twice, " single minus quote ");
    assert_ne!(once, twice);
}

#[test]
fn speakable_currency_symbols() {
    assert_eq!(string_to_speakable_tokens("5€", None), "5 euro ");
    assert_eq!(string_to_speakable_tokens("£", None), " pound ");
    assert_eq!(string_to_speakable_tokens("¥", None), " yen ");
}
