//! A queue of phrases that are spoken one at a time without waiting.
//!
//! The manager decides what is spoken next and whether a running speech
//! process has to be terminated; starting and terminating the process is
//! the caller's part.

use std::collections::VecDeque;
use vstd::prelude::*;
use vstd::string::*;

verus! {

/// A spoken phrase.
#[derive(Debug, PartialEq, Eq)]
pub struct Utterance {
    text: String,
}

impl Utterance {
    /// The phrase.
    pub closed spec fn phrase(&self) -> Seq<char> {
        self.text@
    }

    pub fn new(text: String) -> (u: Utterance)
        ensures
            u.phrase() == text@,
    {
        Utterance { text }
    }

    pub fn from(text: &str) -> (u: Utterance)
        ensures
            u.phrase() == text@,
    {
        Utterance::new(String::from_str(text))
    }

    pub fn text(&self) -> (s: &str)
        ensures
            s@ == self.phrase(),
    {
        self.text.as_str()
    }

    /// A copy with the same phrase.
    pub fn clone(&self) -> (u: Utterance)
        ensures
            u.phrase() == self.phrase(),
    {
        Utterance { text: self.text.clone() }
    }
}

/// The phrases of a sequence of utterances.
pub open spec fn phrases(utterances: Seq<Utterance>) -> Seq<Seq<char>> {
    utterances.map_values(|u: Utterance| u.phrase())
}

/// The queue of pending utterances and the one that is being spoken.
pub struct UtteranceManager {
    queue: VecDeque<Utterance>,
    current_utterance: Option<Utterance>,
}

impl Default for UtteranceManager {
    /// An idle manager: nothing queued, nothing being spoken.
    fn default() -> (m: UtteranceManager)
        ensures
            m.queue() == Seq::<Seq<char>>::empty(),
            m.current() is None,
    {
        UtteranceManager::new()
    }
}

impl UtteranceManager {
    /// The pending phrases, the next to speak first.
    pub closed spec fn queue(&self) -> Seq<Seq<char>> {
        phrases(self.queue@)
    }

    /// The phrase that is being spoken.
    pub closed spec fn current(&self) -> Option<Seq<char>> {
        match self.current_utterance {
            Some(u) => Some(u.phrase()),
            None => None,
        }
    }

    /// An idle manager: nothing queued, nothing being spoken.
    pub fn new() -> (m: UtteranceManager)
        ensures
            m.queue() == Seq::<Seq<char>>::empty(),
            m.current() is None,
    {
        let m = UtteranceManager { queue: VecDeque::new(), current_utterance: None };
        assert(m.queue() =~= Seq::<Seq<char>>::empty());
        m
    }

    /// Puts `utterance` at the front of the queue.
    pub fn say_next(&mut self, utterance: Utterance)
        ensures
            final(self).queue() == seq![utterance.phrase()] + old(self).queue(),
            final(self).current() == old(self).current(),
    {
        self.queue.push_front(utterance);
        assert(final(self).queue() =~= seq![utterance.phrase()] + old(self).queue());
    }

    /// Puts `utterance` at the back of the queue.
    pub fn say(&mut self, utterance: Utterance)
        ensures
            final(self).queue() == old(self).queue().push(utterance.phrase()),
            final(self).current() == old(self).current(),
    {
        self.queue.push_back(utterance);
        assert(final(self).queue() =~= old(self).queue().push(utterance.phrase()));
    }

    /// Drops every pending utterance; what is being spoken goes on.
    pub fn clear(&mut self)
        ensures
            final(self).queue() == Seq::<Seq<char>>::empty(),
            final(self).current() == old(self).current(),
    {
        self.queue.clear();
        assert(final(self).queue() =~= Seq::<Seq<char>>::empty());
    }

    /// Takes the next utterance off the queue and records it as being
    /// spoken; the caller starts the speech process for what is returned.
    /// With an empty queue nothing is being spoken afterwards.
    pub fn speak_next_or_wait(&mut self) -> (next: Option<Utterance>)
        ensures
            match next {
                Some(u) => {
                    &&& old(self).queue().len() > 0
                    &&& u.phrase() == old(self).queue()[0]
                    &&& final(self).queue() == old(self).queue().skip(1)
                    &&& final(self).current() == Some(u.phrase())
                },
                None => {
                    &&& old(self).queue().len() == 0
                    &&& final(self).queue() == old(self).queue()
                    &&& final(self).current() is None
                },
            },
    {
        match self.queue.pop_front() {
            Some(utterance) => {
                self.current_utterance = Some(utterance.clone());
                assert(final(self).queue() =~= old(self).queue().skip(1));
                Some(utterance)
            },
            None => {
                self.current_utterance = None;
                None
            },
        }
    }

    /// Stops what is being spoken. The result says whether the caller has
    /// to terminate a running speech process: when something was being
    /// spoken. The queue is left as it is.
    pub fn stop(&mut self) -> (terminate: bool)
        ensures
            terminate == old(self).current() is Some,
            final(self).current() is None,
            final(self).queue() == old(self).queue(),
    {
        let terminate = self.current_utterance.is_some();
        self.current_utterance = None;
        terminate
    }

    /// Stops what is being spoken and makes `interrupt_utterance` the next
    /// to speak. The result says whether a running speech process has to be
    /// terminated first.
    pub fn interrupt_and_say(&mut self, interrupt_utterance: Utterance) -> (terminate: bool)
        ensures
            terminate == old(self).current() is Some,
            final(self).current() is None,
            final(self).queue() == seq![interrupt_utterance.phrase()] + old(self).queue(),
    {
        let terminate = self.stop();
        self.say_next(interrupt_utterance);
        terminate
    }

    /// Drops everything pending and queues `utterance` alone.
    pub fn clear_and_say(&mut self, utterance: Utterance)
        ensures
            final(self).queue() == seq![utterance.phrase()],
            final(self).current() == old(self).current(),
    {
        self.clear();
        self.say_next(utterance);
        assert(seq![utterance.phrase()] + Seq::<Seq<char>>::empty() =~= seq![utterance.phrase()]);
    }
}

} // verus!
