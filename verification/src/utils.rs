//! Search direction and the symbol-to-speech tokenizer.

use crate::segment::{chars_of, push_char};
use vstd::prelude::*;
use vstd::string::*;

verus! {

/// The way a search walks through the text.
#[derive(Clone, Copy, Debug, PartialEq, Eq, Structural)]
pub enum SearchDirection {
    Forward,
    Backward,
}

/// `text` with every occurrence of `from` replaced by `to`, scanning from the
/// left and never re-reading what was already consumed or written.
pub open spec fn replaced(text: Seq<char>, from: Seq<char>, to: Seq<char>) -> Seq<char>
    decreases text.len(),
{
    if from.len() == 0 || text.len() < from.len() {
        text
    } else if text.take(from.len() as int) == from {
        to + replaced(text.skip(from.len() as int), from, to)
    } else {
        seq![text[0]] + replaced(text.skip(1), from, to)
    }
}

/// A phrase as it is spliced into the spoken text: set off by one space on
/// each side.
pub open spec fn spoken(phrase: Seq<char>) -> Seq<char> {
    seq![' '] + phrase + seq![' ']
}

/// The substitution rules, in the order in which they are applied: each
/// pairs a literal with the phrase that is spoken for it. Longer literals
/// come before the shorter ones they contain.
pub open spec fn rule_table() -> Seq<(Seq<char>, Seq<char>)> {
    seq![
        ("==="@, "triple equals"@),
        ("```"@, "triple backtick"@),
        ("<="@, "less than or equal to"@),
        (">="@, "greater than or equal to"@),
        ("<>"@, "not equal to"@),
        ("<<"@, "left shift"@),
        (">>"@, "right shift"@),
        ("__"@, "dunder"@),
        ("=="@, "double equals"@),
        ("++"@, "plus plus"@),
        ("--"@, "minus minus"@),
        ("+="@, "plus equals"@),
        ("-="@, "minus equals"@),
        ("["@, "square bracket"@),
        ("]"@, "close bracket"@),
        ("("@, "open paren"@),
        (")"@, "close paren"@),
        ("{"@, "open curly brace"@),
        ("}"@, "close curly brace"@),
        ("<"@, "open angle bracket"@),
        (">"@, "close angle bracket"@),
        ("."@, "dot"@),
        ("&"@, "ref"@),
        ("!"@, "bang"@),
        ("#"@, "hash"@),
        ("$"@, "dollarsign"@),
        ("%"@, "percent"@),
        ("^"@, "caret"@),
        ("*"@, "asterisk"@),
        ("+"@, "plus"@),
        ("-"@, "minus"@),
        ("="@, "equals"@),
        ("\\"@, "backslash"@),
        ("|"@, "pipe"@),
        ("/"@, "slash"@),
        ("`"@, "backtick"@),
        ("'"@, "single-quote"@),
        (","@, "comma"@),
        (";"@, "semicolon"@),
        (":"@, "colon"@),
        ("\""@, "double-quote"@),
        ("?"@, "question-mark"@),
        ("_"@, "underscore"@),
        ("~"@, "tilde"@),
        ("@"@, "at-sign"@),
        ("€"@, "euro"@),
        ("£"@, "pound"@),
        ("¥"@, "yen"@),
    ]
}

/// `text` after the given rules have been applied one after another, each to
/// the outcome of the one before.
pub open spec fn apply_rules(rules: Seq<(Seq<char>, Seq<char>)>, text: Seq<char>) -> Seq<char>
    decreases rules.len(),
{
    if rules.len() == 0 {
        text
    } else {
        replaced(apply_rules(rules.drop_last(), text), rules.last().0, spoken(rules.last().1))
    }
}

/// The speakable form of `text`: every rule of the table applied in order.
pub open spec fn speakable(text: Seq<char>) -> Seq<char> {
    apply_rules(rule_table(), text)
}

/// `pattern` stands in `text` at index `at`.
pub open spec fn stands_at(text: Seq<char>, pattern: Seq<char>, at: int) -> bool {
    &&& 0 <= at
    &&& at + pattern.len() <= text.len()
    &&& text.subrange(at, at + pattern.len()) == pattern
}

/// `pattern` stands somewhere in `text`.
pub open spec fn contains(text: Seq<char>, pattern: Seq<char>) -> bool {
    exists|at: int| stands_at(text, pattern, at)
}

/// The views of a table of rules.
pub open spec fn rule_views(rules: Seq<(&'static str, &'static str)>) -> Seq<
    (Seq<char>, Seq<char>),
> {
    rules.map_values(|r: (&'static str, &'static str)| (r.0@, r.1@))
}

/// Replacing a literal that does not occur changes nothing.
pub proof fn lemma_replaced_absent(text: Seq<char>, from: Seq<char>, to: Seq<char>)
    requires
        !contains(text, from),
    ensures
        replaced(text, from, to) == text,
    decreases text.len(),
{
    if from.len() == 0 || text.len() < from.len() {
    } else {
        if text.take(from.len() as int) == from {
            assert(text.subrange(0, 0 + from.len() as int) =~= text.take(from.len() as int));
            assert(stands_at(text, from, 0));
        }
        assert(!contains(text.skip(1), from)) by {
            if contains(text.skip(1), from) {
                let at = choose|at: int| stands_at(text.skip(1), from, at);
                assert(text.subrange(at + 1, at + 1 + from.len()) =~= text.skip(1).subrange(
                    at,
                    at + from.len(),
                ));
                assert(stands_at(text, from, at + 1));
            }
        }
        lemma_replaced_absent(text.skip(1), from, to);
        assert(seq![text[0]] + text.skip(1) =~= text);
    }
}

/// Rules whose literals do not occur in `text` leave it as it is.
pub proof fn lemma_apply_rules_absent(rules: Seq<(Seq<char>, Seq<char>)>, text: Seq<char>)
    requires
        forall|i: int| 0 <= i < rules.len() ==> !contains(text, (#[trigger] rules[i]).0),
    ensures
        apply_rules(rules, text) == text,
    decreases rules.len(),
{
    if rules.len() > 0 {
        let front = rules.drop_last();
        assert forall|i: int| 0 <= i < front.len() implies !contains(
            text,
            (#[trigger] front[i]).0,
        ) by {
            assert(front[i] == rules[i]);
        }
        lemma_apply_rules_absent(front, text);
        lemma_replaced_absent(text, rules.last().0, spoken(rules.last().1));
    }
}

/// A text in which no literal of the rule table occurs is its own speakable
/// form.
pub proof fn lemma_speakable_plain(text: Seq<char>)
    requires
        forall|i: int|
            0 <= i < rule_table().len() ==> !contains(text, (#[trigger] rule_table()[i]).0),
    ensures
        speakable(text) == text,
{
    lemma_apply_rules_absent(rule_table(), text);
}

/// Every literal of the rule table has at least one character.
pub proof fn lemma_rule_literals_nonempty()
    ensures
        rule_table().len() == 48,
        forall|i: int| 0 <= i < rule_table().len() ==> (#[trigger] rule_table()[i]).0.len() > 0,
{
    reveal_strlit("===");
    reveal_strlit("```");
    reveal_strlit("<=");
    reveal_strlit(">=");
    reveal_strlit("<>");
    reveal_strlit("<<");
    reveal_strlit(">>");
    reveal_strlit("__");
    reveal_strlit("==");
    reveal_strlit("++");
    reveal_strlit("--");
    reveal_strlit("+=");
    reveal_strlit("-=");
    reveal_strlit("[");
    reveal_strlit("]");
    reveal_strlit("(");
    reveal_strlit(")");
    reveal_strlit("{");
    reveal_strlit("}");
    reveal_strlit("<");
    reveal_strlit(">");
    reveal_strlit(".");
    reveal_strlit("&");
    reveal_strlit("!");
    reveal_strlit("#");
    reveal_strlit("$");
    reveal_strlit("%");
    reveal_strlit("^");
    reveal_strlit("*");
    reveal_strlit("+");
    reveal_strlit("-");
    reveal_strlit("=");
    reveal_strlit("\\");
    reveal_strlit("|");
    reveal_strlit("/");
    reveal_strlit("`");
    reveal_strlit("'");
    reveal_strlit(",");
    reveal_strlit(";");
    reveal_strlit(":");
    reveal_strlit("\"");
    reveal_strlit("?");
    reveal_strlit("_");
    reveal_strlit("~");
    reveal_strlit("@");
    reveal_strlit("€");
    reveal_strlit("£");
    reveal_strlit("¥");
}

/// Whether `pattern` stands in `text` at index `at`.
fn pattern_at(text: &Vec<char>, pattern: &Vec<char>, at: usize) -> (b: bool)
    requires
        at + pattern.len() <= text.len(),
    ensures
        b == stands_at(text@, pattern@, at as int),
{
    let mut j: usize = 0;
    while j < pattern.len()
        invariant
            j <= pattern.len(),
            at + pattern.len() <= text.len(),
            forall|k: int| 0 <= k < j ==> text@[at + k] == pattern@[k],
        decreases pattern.len() - j,
    {
        if text[at + j] != pattern[j] {
            assert(text@.subrange(at as int, at + pattern.len())[j as int] != pattern@[j as int]);
            return false;
        }
        j += 1;
    }
    assert(text@.subrange(at as int, at + pattern.len()) =~= pattern@);
    true
}

/// `text` with every occurrence of `from` replaced by `to`.
fn replace_all(text: &str, from: &str, to: &str) -> (out: String)
    requires
        from@.len() > 0,
    ensures
        out@ == replaced(text@, from@, to@),
{
    let chars = chars_of(text);
    let pattern = chars_of(from);
    let mut out = String::new();
    let mut i: usize = 0;
    assert(chars@.skip(0) =~= chars@);
    while i < chars.len()
        invariant
            i <= chars.len(),
            pattern@ == from@,
            pattern.len() > 0,
            replaced(text@, from@, to@) == out@ + replaced(chars@.skip(i as int), from@, to@),
        decreases chars.len() - i,
    {
        let ghost rest = chars@.skip(i as int);
        let ghost done = out@;
        if pattern.len() <= chars.len() - i && pattern_at(&chars, &pattern, i) {
            out.append(to);
            proof {
                assert(rest.take(pattern.len() as int) =~= chars@.subrange(
                    i as int,
                    i + pattern.len(),
                ));
                assert(rest.skip(pattern.len() as int) =~= chars@.skip(i + pattern.len()));
                assert(done + (to@ + replaced(rest.skip(pattern.len() as int), from@, to@))
                    =~= (done + to@) + replaced(rest.skip(pattern.len() as int), from@, to@));
            }
            i += pattern.len();
        } else {
            push_char(&mut out, chars[i]);
            proof {
                if pattern.len() <= chars.len() - i {
                    assert(rest.take(pattern.len() as int) =~= chars@.subrange(
                        i as int,
                        i + pattern.len(),
                    ));
                }
                assert(rest.skip(1) =~= chars@.skip(i + 1));
                assert(replaced(rest, from@, to@) == seq![rest[0]] + replaced(
                    rest.skip(1),
                    from@,
                    to@,
                )) by {
                    if rest.len() < from@.len() {
                        assert(replaced(rest.skip(1), from@, to@) == rest.skip(1));
                        assert(seq![rest[0]] + rest.skip(1) =~= rest);
                    }
                }
                assert(done + (seq![rest[0]] + replaced(rest.skip(1), from@, to@)) =~= done.push(
                    chars@[i as int],
                ) + replaced(rest.skip(1), from@, to@));
            }
            i += 1;
        }
    }
    assert(out@ + Seq::<char>::empty() =~= out@);
    out
}

/// The rule table as strings.
fn rules() -> (table: Vec<(&'static str, &'static str)>)
    ensures
        rule_views(table@) == rule_table(),
{
    let table = vec![
        ("===", "triple equals"),
        ("```", "triple backtick"),
        ("<=", "less than or equal to"),
        (">=", "greater than or equal to"),
        ("<>", "not equal to"),
        ("<<", "left shift"),
        (">>", "right shift"),
        ("__", "dunder"),
        ("==", "double equals"),
        ("++", "plus plus"),
        ("--", "minus minus"),
        ("+=", "plus equals"),
        ("-=", "minus equals"),
        ("[", "square bracket"),
        ("]", "close bracket"),
        ("(", "open paren"),
        (")", "close paren"),
        ("{", "open curly brace"),
        ("}", "close curly brace"),
        ("<", "open angle bracket"),
        (">", "close angle bracket"),
        (".", "dot"),
        ("&", "ref"),
        ("!", "bang"),
        ("#", "hash"),
        ("$", "dollarsign"),
        ("%", "percent"),
        ("^", "caret"),
        ("*", "asterisk"),
        ("+", "plus"),
        ("-", "minus"),
        ("=", "equals"),
        ("\\", "backslash"),
        ("|", "pipe"),
        ("/", "slash"),
        ("`", "backtick"),
        ("'", "single-quote"),
        (",", "comma"),
        (";", "semicolon"),
        (":", "colon"),
        ("\"", "double-quote"),
        ("?", "question-mark"),
        ("_", "underscore"),
        ("~", "tilde"),
        ("@", "at-sign"),
        ("€", "euro"),
        ("£", "pound"),
        ("¥", "yen"),
    ];
    assert(rule_views(table@) =~= rule_table());
    table
}

/// The speakable form of `text`: each symbol of the rule table replaced by
/// its phrase, the rules applied in table order, each one to the outcome of
/// the one before. The second argument is not used.
///
/// The outcome is in general not a fixed point: a phrase may itself hold a
/// symbol of the table (the hyphen in "single-quote"), which an earlier rule
/// has already passed by, so a second application can change the text again.
pub fn string_to_speakable_tokens(text: &str, _cursor: Option<usize>) -> (out: String)
    ensures
        out@ == speakable(text@),
{
    let table = rules();
    let mut out = String::from_str(text);
    let mut i: usize = 0;
    proof {
        lemma_rule_literals_nonempty();
        assert(rule_table().take(0) =~= Seq::empty());
    }
    while i < table.len()
        invariant
            i <= table.len(),
            rule_views(table@) == rule_table(),
            forall|j: int| 0 <= j < rule_table().len() ==> (#[trigger] rule_table()[j]).0.len() > 0,
            out@ == apply_rules(rule_table().take(i as int), text@),
        decreases table.len() - i,
    {
        let (symbol, phrase) = table[i];
        proof {
            reveal_strlit(" ");
            assert(" "@ =~= seq![' ']);
            assert(rule_table()[i as int] == (symbol@, phrase@));
            assert(rule_table().take(i + 1).drop_last() =~= rule_table().take(i as int));
        }
        let mut replacement = String::from_str(" ");
        replacement.append(phrase);
        replacement.append(" ");
        out = replace_all(out.as_str(), symbol, replacement.as_str());
        i += 1;
    }
    assert(rule_table().take(table.len() as int) =~= rule_table());
    out
}

} // verus!
