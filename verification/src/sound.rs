//! Sounds and the queue that schedules them.
//!
//! The scheduler decides; it plays nothing itself. Each operation says in
//! its result what the audio backend has to do: which sound to start, and
//! whether a running speech process must be terminated.

use crate::row::Row;
use crate::segment::chars_of;
use crate::utils::{speakable, string_to_speakable_tokens};
use std::collections::VecDeque;
use vstd::prelude::*;
use vstd::string::*;

verus! {

/// The speech rate of an utterance that names none, in words per minute.
pub const DEFAULT_RATE_WPM: i64 = 300;

/// A sine-wave cue. The frequency is in thousandths of a hertz, the
/// duration in milliseconds, the volume in thousandths of full scale.
#[derive(Clone, Copy, Debug, PartialEq, Eq, Structural)]
pub struct Tone {
    pub frequency: u32,
    pub duration: u32,
    pub volume: u32,
}

impl Tone {
    pub fn new(frequency: u32, duration: u32, volume: u32) -> (tone: Tone)
        ensures
            tone == (Tone { frequency, duration, volume }),
    {
        Tone { frequency, duration, volume }
    }
}

/// A spoken phrase and the rate at which it is spoken.
#[derive(Debug, PartialEq, Eq)]
pub struct Utterance {
    text: String,
    rate_wpm: i64,
}

impl Utterance {
    /// The phrase.
    pub closed spec fn phrase(&self) -> Seq<char> {
        self.text@
    }

    /// The rate in words per minute.
    pub closed spec fn rate(&self) -> i64 {
        self.rate_wpm
    }

    /// An utterance at the default rate.
    pub fn new(text: String) -> (u: Utterance)
        ensures
            u.phrase() == text@,
            u.rate() == DEFAULT_RATE_WPM,
    {
        Utterance { text, rate_wpm: DEFAULT_RATE_WPM }
    }

    pub fn from_text_and_wpm(text: String, rate_wpm: i64) -> (u: Utterance)
        ensures
            u.phrase() == text@,
            u.rate() == rate_wpm,
    {
        Utterance { text, rate_wpm }
    }

    /// An utterance of `text` at the default rate.
    pub fn from(text: &str) -> (u: Utterance)
        ensures
            u.phrase() == text@,
            u.rate() == DEFAULT_RATE_WPM,
    {
        Utterance::new(String::from_str(text))
    }

    pub fn text(&self) -> (s: &str)
        ensures
            s@ == self.phrase(),
    {
        self.text.as_str()
    }

    pub fn rate_wpm(&self) -> (r: i64)
        ensures
            r == self.rate(),
    {
        self.rate_wpm
    }
}

impl Clone for Utterance {
    /// A copy with the same phrase and rate.
    fn clone(&self) -> (u: Utterance)
        ensures
            u.phrase() == self.phrase(),
            u.rate() == self.rate(),
    {
        Utterance { text: self.text.clone(), rate_wpm: self.rate_wpm }
    }
}

/// Something the backend can play: a tone or an utterance.
#[derive(Debug, PartialEq, Eq)]
pub enum Sound {
    Tone(Tone),
    Utterance(Utterance),
}

/// What a sound is, apart from where its text is stored.
pub ghost enum SoundView {
    Tone(Tone),
    Utterance { text: Seq<char>, rate_wpm: i64 },
}

impl View for Sound {
    type V = SoundView;

    open spec fn view(&self) -> SoundView {
        match self {
            Sound::Tone(tone) => SoundView::Tone(*tone),
            Sound::Utterance(u) => SoundView::Utterance { text: u.phrase(), rate_wpm: u.rate() },
        }
    }
}

/// The views of a sequence of sounds.
pub open spec fn sound_views(sounds: Seq<Sound>) -> Seq<SoundView> {
    sounds.map_values(|s: Sound| s@)
}

/// Only an utterance is backed by a process that can be terminated; a tone,
/// once started, plays to its end.
pub open spec fn cancellable(sound: SoundView) -> bool {
    sound is Utterance
}

impl Sound {
    /// Whether playback of this sound can be cut short.
    pub fn is_cancellable(&self) -> (b: bool)
        ensures
            b == cancellable(self@),
    {
        match self {
            Sound::Tone(_) => false,
            Sound::Utterance(_) => true,
        }
    }
}

impl Clone for Sound {
    /// A copy that is the same sound.
    fn clone(&self) -> (s: Sound)
        ensures
            s@ == self@,
    {
        match self {
            Sound::Tone(tone) => Sound::Tone(*tone),
            Sound::Utterance(u) => Sound::Utterance(u.clone()),
        }
    }
}

/// A request to the audio backend: play `sound`, and either wait until it
/// has ended or go on at once.
#[derive(Debug, PartialEq, Eq)]
pub struct Playback {
    pub sound: Sound,
    pub wait: bool,
}

/// Requests as the scheduler sees them: each sound with whether its end is
/// waited for.
pub open spec fn playback_views(requests: Seq<Playback>) -> Seq<(SoundView, bool)> {
    requests.map_values(|r: Playback| (r.sound@, r.wait))
}

/// The requests that play `sounds` one after another, each to its end.
pub open spec fn each_to_its_end(sounds: Seq<SoundView>) -> Seq<(SoundView, bool)> {
    sounds.map_values(|s: SoundView| (s, true))
}

/// Something that can be played. Neither operation touches the audio
/// device: each hands out the request that the backend carries out.
pub trait Audible {
    /// What is heard when this is played.
    spec fn heard(&self) -> SoundView;

    /// Starts playing, without waiting for the end.
    fn play(&self) -> (request: Playback)
        ensures
            request.sound@ == self.heard(),
            !request.wait,
    ;

    /// Plays to the end.
    fn play_and_wait(&self) -> (request: Playback)
        ensures
            request.sound@ == self.heard(),
            request.wait,
    ;
}

/// An audible whose playing can be cut short.
pub trait CancellableAudible: Audible {
    /// Stops playing. The result says whether the backend has to terminate
    /// the process that plays it.
    fn stop(&self) -> (terminate: bool)
        ensures
            terminate == cancellable(self.heard()),
    ;
}

impl Audible for Tone {
    open spec fn heard(&self) -> SoundView {
        SoundView::Tone(*self)
    }

    fn play(&self) -> (request: Playback) {
        Playback { sound: Sound::Tone(*self), wait: false }
    }

    fn play_and_wait(&self) -> (request: Playback) {
        Playback { sound: Sound::Tone(*self), wait: true }
    }
}

impl Audible for Utterance {
    open spec fn heard(&self) -> SoundView {
        SoundView::Utterance { text: self.phrase(), rate_wpm: self.rate() }
    }

    fn play(&self) -> (request: Playback) {
        Playback { sound: Sound::Utterance(self.clone()), wait: false }
    }

    fn play_and_wait(&self) -> (request: Playback) {
        Playback { sound: Sound::Utterance(self.clone()), wait: true }
    }
}

impl CancellableAudible for Utterance {
    fn stop(&self) -> (terminate: bool) {
        true
    }
}

impl Audible for Sound {
    open spec fn heard(&self) -> SoundView {
        self@
    }

    fn play(&self) -> (request: Playback) {
        Playback { sound: self.clone(), wait: false }
    }

    fn play_and_wait(&self) -> (request: Playback) {
        Playback { sound: self.clone(), wait: true }
    }
}

/// Sounds that are played one after another.
pub struct SoundSequence {
    audibles: Vec<Sound>,
}

impl SoundSequence {
    /// The sounds, in playing order.
    pub closed spec fn sounds(&self) -> Seq<SoundView> {
        sound_views(self.audibles@)
    }

    pub fn new(audibles: Vec<Sound>) -> (seq: SoundSequence)
        ensures
            seq.sounds() == sound_views(audibles@),
    {
        SoundSequence { audibles }
    }

    /// Plays the sounds in order, each to its end.
    pub fn play_and_wait(&self) -> (requests: Vec<Playback>)
        ensures
            playback_views(requests@) == each_to_its_end(self.sounds()),
    {
        let mut requests: Vec<Playback> = Vec::new();
        let mut i: usize = 0;
        while i < self.audibles.len()
            invariant
                i <= self.audibles.len(),
                playback_views(requests@) == each_to_its_end(self.sounds().take(i as int)),
            decreases self.audibles.len() - i,
        {
            let ghost before = playback_views(requests@);
            let request = self.audibles[i].play_and_wait();
            requests.push(request);
            assert(playback_views(requests@) =~= before.push((request.sound@, true)));
            assert(each_to_its_end(self.sounds().take(i + 1)) =~= each_to_its_end(
                self.sounds().take(i as int),
            ).push((self.sounds()[i as int], true)));
            i += 1;
        }
        assert(self.sounds().take(self.audibles.len() as int) =~= self.sounds());
        requests
    }
}

/// The queue of pending sounds and the sound that is playing, if any.
pub struct SoundManager {
    queue: VecDeque<Sound>,
    current_sound: Option<Sound>,
}

impl SoundManager {
    /// The pending sounds, the next to play first.
    pub closed spec fn queue(&self) -> Seq<SoundView> {
        sound_views(self.queue@)
    }

    /// The sound that is playing.
    pub closed spec fn current(&self) -> Option<SoundView> {
        match self.current_sound {
            Some(sound) => Some(sound@),
            None => None,
        }
    }

    /// Whether a speech process is running that an interrupt has to
    /// terminate.
    pub open spec fn must_terminate(&self) -> bool {
        self.current() matches Some(sound) && cancellable(sound)
    }

    /// An idle scheduler: nothing queued, nothing playing.
    pub fn new() -> (m: SoundManager)
        ensures
            m.queue() == Seq::<SoundView>::empty(),
            m.current() is None,
    {
        let m = SoundManager { queue: VecDeque::new(), current_sound: None };
        assert(m.queue() =~= Seq::<SoundView>::empty());
        m
    }

    /// Puts `sound` at the front of the queue: it plays next.
    pub fn prepend(&mut self, sound: Sound)
        ensures
            final(self).queue() == seq![sound@] + old(self).queue(),
            final(self).current() == old(self).current(),
    {
        self.queue.push_front(sound);
        assert(final(self).queue() =~= seq![sound@] + old(self).queue());
    }

    /// Puts `sound` at the back of the queue: it plays after everything
    /// that is already queued.
    pub fn append(&mut self, sound: Sound)
        ensures
            final(self).queue() == old(self).queue().push(sound@),
            final(self).current() == old(self).current(),
    {
        self.queue.push_back(sound);
        assert(final(self).queue() =~= old(self).queue().push(sound@));
    }

    /// Drops every sound that has not started; what is playing goes on.
    pub fn clear(&mut self)
        ensures
            final(self).queue() == Seq::<SoundView>::empty(),
            final(self).current() == old(self).current(),
    {
        self.queue.clear();
        assert(final(self).queue() =~= Seq::<SoundView>::empty());
    }

    /// The number of pending sounds.
    pub fn pending(&self) -> (n: usize)
        ensures
            n == self.queue().len(),
    {
        self.queue.len()
    }

    /// Whether a sound is playing, and whether it can be cut short.
    pub fn playing(&self) -> (state: Option<bool>)
        ensures
            match state {
                Some(b) => self.current() matches Some(sound) && b == cancellable(sound),
                None => self.current() is None,
            },
    {
        match &self.current_sound {
            Some(sound) => Some(sound.is_cancellable()),
            None => None,
        }
    }

    /// Takes the next sound off the queue and records it as playing. The
    /// backend plays what is returned, to its end, and then reports with
    /// `finish`. With an empty queue nothing is playing afterwards.
    pub fn play_next(&mut self) -> (next: Option<Sound>)
        ensures
            match next {
                Some(sound) => {
                    &&& old(self).queue().len() > 0
                    &&& sound@ == old(self).queue()[0]
                    &&& final(self).queue() == old(self).queue().skip(1)
                    &&& final(self).current() == Some(sound@)
                },
                None => {
                    &&& old(self).queue().len() == 0
                    &&& final(self).queue() == old(self).queue()
                    &&& final(self).current() is None
                },
            },
    {
        match self.queue.pop_front() {
            Some(sound) => {
                self.current_sound = Some(sound.clone());
                assert(final(self).queue() =~= old(self).queue().skip(1));
                Some(sound)
            },
            None => {
                self.current_sound = None;
                None
            },
        }
    }

    /// Records that the sound that was playing has ended.
    pub fn finish(&mut self)
        ensures
            final(self).queue() == old(self).queue(),
            final(self).current() is None,
    {
        self.current_sound = None;
    }

    /// Drains the queue: every pending sound, in queue order, is handed out
    /// to be played to its end. Afterwards nothing is queued and nothing is
    /// playing.
    pub fn play_next_or_wait(&mut self) -> (played: Vec<Sound>)
        ensures
            sound_views(played@) == old(self).queue(),
            final(self).queue() == Seq::<SoundView>::empty(),
            final(self).current() is None,
    {
        let mut played: Vec<Sound> = Vec::new();
        assert(sound_views(played@) + self.queue() =~= old(self).queue());
        loop
            invariant
                sound_views(played@) + self.queue() == old(self).queue(),
            ensures
                self.queue().len() == 0,
                self.current() is None,
            decreases self.queue().len(),
        {
            let ghost before = sound_views(played@);
            let ghost pending = self.queue();
            match self.play_next() {
                Some(sound) => {
                    played.push(sound);
                    self.finish();
                    assert(sound_views(played@) =~= before.push(sound@));
                    assert(before.push(pending[0]) + pending.skip(1) =~= before + pending);
                },
                None => {
                    break ;
                },
            }
        }
        assert(sound_views(played@) + self.queue() =~= sound_views(played@));
        assert(self.queue() =~= Seq::<SoundView>::empty());
        played
    }

    /// Stops what is playing. The result says whether the backend has to
    /// terminate a running speech process: only when an utterance was
    /// playing. The queue is left as it is.
    pub fn kill(&mut self) -> (terminate: bool)
        ensures
            terminate == old(self).must_terminate(),
            final(self).current() is None,
            final(self).queue() == old(self).queue(),
    {
        let terminate = match &self.current_sound {
            Some(sound) => sound.is_cancellable(),
            None => false,
        };
        self.current_sound = None;
        terminate
    }

    /// Interrupts: stops what is playing and makes `interrupt_sound` the
    /// next sound to play, ahead of everything queued. The result says
    /// whether a running speech process has to be terminated first.
    pub fn interrupt_and_play(&mut self, interrupt_sound: Sound) -> (terminate: bool)
        ensures
            terminate == old(self).must_terminate(),
            final(self).current() is None,
            final(self).queue() == seq![interrupt_sound@] + old(self).queue(),
    {
        let terminate = self.kill();
        self.prepend(interrupt_sound);
        terminate
    }

    /// Drops everything pending and queues `sound` alone.
    pub fn clear_and_play(&mut self, sound: Sound)
        ensures
            final(self).queue() == seq![sound@],
            final(self).current() == old(self).current(),
    {
        self.clear();
        self.prepend(sound);
        assert(seq![sound@] + Seq::<SoundView>::empty() =~= seq![sound@]);
    }
}

/// The twelve notes of the octave from middle C, in thousandths of a hertz.
pub open spec fn scale_note(index: int) -> u32 {
    if index == 0 {
        262_000
    } else if index == 1 {
        277_000
    } else if index == 2 {
        294_000
    } else if index == 3 {
        311_000
    } else if index == 4 {
        330_000
    } else if index == 5 {
        349_000
    } else if index == 6 {
        370_000
    } else if index == 7 {
        392_000
    } else if index == 8 {
        415_000
    } else if index == 9 {
        440_000
    } else if index == 10 {
        466_000
    } else {
        494_000
    }
}

/// The five notes that mark indentation when a row is played at once: the
/// sharps of the octave, repeating.
pub open spec fn pentatonic_note(step: int) -> u32 {
    let degree = step % 5;
    if degree == 0 {
        scale_note(1)
    } else if degree == 1 {
        scale_note(3)
    } else if degree == 2 {
        scale_note(6)
    } else if degree == 3 {
        scale_note(8)
    } else {
        scale_note(10)
    }
}

/// The five notes that mark indentation when a row is queued: D, E, F
/// sharp, A and B, repeating.
pub open spec fn queued_note(step: int) -> u32 {
    let degree = step % 5;
    if degree == 0 {
        293_333
    } else if degree == 1 {
        329_250
    } else if degree == 2 {
        371_250
    } else if degree == 3 {
        440_000
    } else {
        495_000
    }
}

/// The note for indentation step `step`, in the scale for immediate or for
/// queued playing.
pub open spec fn indent_note(step: int, at_once: bool) -> u32 {
    if at_once {
        pentatonic_note(step)
    } else {
        queued_note(step)
    }
}

/// How many times `c` stands at the start of `text`.
pub open spec fn leading(text: Seq<char>, c: char) -> nat
    decreases text.len(),
{
    if text.len() > 0 && text[0] == c {
        1 + leading(text.skip(1), c)
    } else {
        0
    }
}

/// The indentation of a row: one level for each leading tab, or one for
/// every four leading spaces.
pub open spec fn indent_level(text: Seq<char>) -> nat {
    leading(text, '\t') + leading(text, ' ') / 4
}

/// The tone for indentation step `step`.
pub open spec fn indent_tone(step: int, at_once: bool) -> SoundView {
    SoundView::Tone(Tone { frequency: indent_note(step, at_once), duration: 150, volume: 500 })
}

/// How a row is narrated: one tone for each level of indentation, then the
/// speakable form of the whole row at the default rate.
pub open spec fn narration(text: Seq<char>, at_once: bool) -> Seq<SoundView> {
    Seq::new(indent_level(text), |step: int| indent_tone(step, at_once)).push(
        SoundView::Utterance { text: speakable(text), rate_wpm: DEFAULT_RATE_WPM },
    )
}

/// The frequency of note `index` of the octave.
pub fn note(index: usize) -> (frequency: u32)
    requires
        index < 12,
    ensures
        frequency == scale_note(index as int),
{
    if index == 0 {
        262_000
    } else if index == 1 {
        277_000
    } else if index == 2 {
        294_000
    } else if index == 3 {
        311_000
    } else if index == 4 {
        330_000
    } else if index == 5 {
        349_000
    } else if index == 6 {
        370_000
    } else if index == 7 {
        392_000
    } else if index == 8 {
        415_000
    } else if index == 9 {
        440_000
    } else if index == 10 {
        466_000
    } else {
        494_000
    }
}

fn note_for_step(step: usize, at_once: bool) -> (frequency: u32)
    ensures
        frequency == indent_note(step as int, at_once),
{
    let degree = step % 5;
    if at_once {
        if degree == 0 {
            note(1)
        } else if degree == 1 {
            note(3)
        } else if degree == 2 {
            note(6)
        } else if degree == 3 {
            note(8)
        } else {
            note(10)
        }
    } else {
        if degree == 0 {
            293_333
        } else if degree == 1 {
            329_250
        } else if degree == 2 {
            371_250
        } else if degree == 3 {
            440_000
        } else {
            495_000
        }
    }
}

fn leading_count(chars: &Vec<char>, c: char) -> (n: usize)
    ensures
        n == leading(chars@, c),
        n <= chars.len(),
{
    let mut n: usize = 0;
    assert(chars@.skip(0) =~= chars@);
    while n < chars.len() && chars[n] == c
        invariant
            n <= chars.len(),
            leading(chars@, c) == n + leading(chars@.skip(n as int), c),
        decreases chars.len() - n,
    {
        assert(chars@.skip(n as int).skip(1) =~= chars@.skip(n + 1));
        n += 1;
    }
    n
}

/// The sounds that narrate a row with the text `text`, in playing order.
pub fn narrate(text: &str, at_once: bool) -> (sounds: Vec<Sound>)
    ensures
        sound_views(sounds@) == narration(text@, at_once),
{
    let chars = chars_of(text);
    let tabs = leading_count(&chars, '\t');
    let spaces = leading_count(&chars, ' ');
    let level = tabs + spaces / 4;
    let mut sounds: Vec<Sound> = Vec::new();
    let mut step: usize = 0;
    while step < level
        invariant
            step <= level,
            sound_views(sounds@) == Seq::new(
                step as nat,
                |i: int| indent_tone(i, at_once),
            ),
        decreases level - step,
    {
        let ghost before = sound_views(sounds@);
        let tone = Tone::new(note_for_step(step, at_once), 150, 500);
        sounds.push(Sound::Tone(tone));
        assert(sound_views(sounds@) =~= before.push(indent_tone(step as int, at_once)));
        step += 1;
    }
    let ghost tones = sound_views(sounds@);
    let spoken = Utterance::new(string_to_speakable_tokens(text, None));
    let last = Sound::Utterance(spoken);
    sounds.push(last);
    assert(sound_views(sounds@) =~= tones.push(last@));
    sounds
}

impl SoundManager {
    /// Queues every sound of `sounds`, in order, behind what is already
    /// pending.
    pub fn append_all(&mut self, sounds: Vec<Sound>)
        ensures
            final(self).queue() == old(self).queue() + sound_views(sounds@),
            final(self).current() == old(self).current(),
    {
        let mut sounds = sounds;
        let ghost all = sound_views(sounds@);
        let mut rest: VecDeque<Sound> = VecDeque::new();
        assert(sound_views(sounds@) + sound_views(rest@) =~= all);
        loop
            invariant
                sound_views(sounds@) + sound_views(rest@) == all,
            ensures
                sounds@.len() == 0,
            decreases sounds.len(),
        {
            let ghost left = sound_views(sounds@);
            let ghost right = sound_views(rest@);
            match sounds.pop() {
                Some(sound) => {
                    rest.push_front(sound);
                    assert(sound_views(sounds@) + sound_views(rest@) =~= left + right);
                },
                None => {
                    break ;
                },
            }
        }
        assert(sound_views(rest@) =~= all);
        self.queue.append(&mut rest);
        assert(final(self).queue() =~= old(self).queue() + all);
    }

    /// Plays `sound` at once and to its end, past the queue: nothing queued
    /// or playing is touched.
    pub fn play_and_wait(&mut self, sound: Sound) -> (request: Playback)
        ensures
            request.sound@ == sound@,
            request.wait,
            final(self).queue() == old(self).queue(),
            final(self).current() == old(self).current(),
    {
        Playback { sound, wait: true }
    }

    /// Plays the narration of `row` at once, each sound to its end, past
    /// the queue.
    pub fn play_row_and_wait(&mut self, row: Row) -> (requests: Vec<Playback>)
        ensures
            playback_views(requests@) == each_to_its_end(narration(row.text(), true)),
            final(self).queue() == old(self).queue(),
            final(self).current() == old(self).current(),
    {
        row.play_blocking(self)
    }

    /// Queues the narration of `row` behind what is already pending.
    pub fn play_row(&mut self, row: &Row)
        ensures
            final(self).queue() == old(self).queue() + narration(row.text(), false),
            final(self).current() == old(self).current(),
    {
        row.play(self);
    }
}

} // verus!
