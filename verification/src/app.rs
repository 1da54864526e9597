//! The state of the terminal app and every decision it takes: filtering,
//! selection, adding, editing and deleting sentences, settings, and auto-play.
//! The program around it performs the effects that these functions hand back
//! (speech, file writes) and reports events in.
use vstd::prelude::*;
use crate::playlist::{pool, shuffle, weighted_pool};
use crate::sentence::{
    Config, Sentence, SentenceView, Settings, SettingsView, opt_view, sentence_views,
};
use crate::text::{
    contains, contains_seq, copy_string, decimal, join, join_with_spaces, lowercase,
    lowercase_chars, owned, parse_tags, parse_u32, parse_u32_spec, pop_char, push_char,
    push_decimal, push_str, tags_of, trim, trimmed, views, is_ascii_digit, is_digit,
};

verus! {

/// Which mode the app is in. In Normal we navigate; in Search we type a
/// filter; in Add we type a sentence (text, tags, note), also used for
/// editing; in ConfirmDelete we ask before removing the selected sentence.
#[derive(Debug, Clone, Copy, PartialEq, Eq, Structural)]
pub enum Mode {
    Normal,
    Search,
    Add,
    ConfirmDelete,
    Help,
    Settings,
}

/// The app's state.
#[derive(Debug)]
pub struct App {
    pub sentences: Vec<Sentence>,
    /// Position of the highlighted row within the filtered list.
    pub selected: usize,
    pub filter: String,
    pub mode: Mode,
    /// Auto-play on or off.
    pub playing: bool,
    /// Shuffled order of sentence indices for auto-play.
    pub playlist: Vec<usize>,
    /// How far through the playlist auto-play is.
    pub play_pos: usize,
    /// Seconds between auto-played sentences.
    pub pause_secs: u64,
    pub settings: Settings,
    /// Index of the sentence currently being spoken.
    pub speaking_index: Option<usize>,
    /// Add/Edit buffer: text.
    pub add_text: String,
    /// Add/Edit buffer: tags.
    pub add_tags: String,
    /// Add/Edit buffer: note.
    pub add_note: String,
    /// Active Add field: 0 text, 1 tags, 2 note.
    pub add_field: usize,
    /// `Some(index)` while editing that sentence, `None` while adding.
    pub editing: Option<usize>,
    /// Settings buffer: voice.
    pub set_voice: String,
    /// Settings buffer: rate (digits).
    pub set_rate: String,
    /// Settings buffer: star weight (digits).
    pub set_star_weight: String,
    /// Active Settings field: 0 voice, 1 rate, 2 star weight.
    pub set_field: usize,
}

/// The contents of the app's state.
pub struct AppView {
    pub sentences: Seq<SentenceView>,
    pub selected: usize,
    pub filter: Seq<char>,
    pub mode: Mode,
    pub playing: bool,
    pub playlist: Seq<usize>,
    pub play_pos: usize,
    pub pause_secs: u64,
    pub settings: SettingsView,
    pub speaking_index: Option<usize>,
    pub add_text: Seq<char>,
    pub add_tags: Seq<char>,
    pub add_note: Seq<char>,
    pub add_field: usize,
    pub editing: Option<usize>,
    pub set_voice: Seq<char>,
    pub set_rate: Seq<char>,
    pub set_star_weight: Seq<char>,
    pub set_field: usize,
}

impl View for App {
    type V = AppView;

    open spec fn view(&self) -> AppView {
        AppView {
            sentences: sentence_views(self.sentences@),
            selected: self.selected,
            filter: self.filter@,
            mode: self.mode,
            playing: self.playing,
            playlist: self.playlist@,
            play_pos: self.play_pos,
            pause_secs: self.pause_secs,
            settings: self.settings@,
            speaking_index: self.speaking_index,
            add_text: self.add_text@,
            add_tags: self.add_tags@,
            add_note: self.add_note@,
            add_field: self.add_field,
            editing: self.editing,
            set_voice: self.set_voice@,
            set_rate: self.set_rate@,
            set_star_weight: self.set_star_weight@,
            set_field: self.set_field,
        }
    }
}

/// What the program around the app has to do after a step.
#[derive(Debug)]
pub enum Effect {
    /// Nothing.
    Nothing,
    /// Rewrite the whole sentence file from the settings and sentences.
    SaveAll,
    /// Append this sentence's block to the sentence file, then report the
    /// outcome with `App::finish_add`.
    Append(Sentence),
    /// Stop any speech, then run the speech command with these arguments.
    Say(Vec<String>),
    /// Auto-play started: restart the pause clock, stop any speech, and run
    /// the speech command with these arguments if there are any.
    PlayStarted(Option<Vec<String>>),
    /// Auto-play stopped: stop any speech and clear the pause clock.
    PlayStopped,
    /// Stop any speech and leave.
    Quit,
}

/// The contents of an effect.
pub enum EffectView {
    Nothing,
    SaveAll,
    Append(SentenceView),
    Say(Seq<Seq<char>>),
    PlayStarted(Option<Seq<Seq<char>>>),
    PlayStopped,
    Quit,
}

impl View for Effect {
    type V = EffectView;

    open spec fn view(&self) -> EffectView {
        match self {
            Effect::Nothing => EffectView::Nothing,
            Effect::SaveAll => EffectView::SaveAll,
            Effect::Append(s) => EffectView::Append(s@),
            Effect::Say(a) => EffectView::Say(views(a@)),
            Effect::PlayStarted(a) => EffectView::PlayStarted(
                match a {
                    Some(a) => Some(views(a@)),
                    None => None,
                },
            ),
            Effect::PlayStopped => EffectView::PlayStopped,
            Effect::Quit => EffectView::Quit,
        }
    }
}

/// A key press, as the app sees it.
#[derive(Debug, Clone, Copy, PartialEq, Eq, Structural)]
pub enum Key {
    Char(char),
    Enter,
    Esc,
    Backspace,
    Up,
    Down,
    Left,
    Right,
    Other,
}

// ---------------------------------------------------------------------------
// Filtering
// ---------------------------------------------------------------------------

/// A sentence matches a lower-cased filter when the filter is empty, or it
/// occurs in the lower-cased text or in one of the lower-cased tags.
pub open spec fn sentence_hit(s: SentenceView, needle: Seq<char>) -> bool {
    ||| needle.len() == 0
    ||| contains_seq(lowercase(s.text), needle)
    ||| exists|t: int| 0 <= t < s.tags.len() && #[trigger] contains_seq(lowercase(s.tags[t]), needle)
}

/// The indices, in order, of the first `n` sentences that match `needle`.
pub open spec fn matching(ss: Seq<SentenceView>, needle: Seq<char>, n: nat) -> Seq<usize>
    decreases n,
{
    if n == 0 {
        seq![]
    } else {
        let r = matching(ss, needle, (n - 1) as nat);
        if sentence_hit(ss[n - 1], needle) {
            r.push((n - 1) as usize)
        } else {
            r
        }
    }
}

/// The matching indices lie below `n` and increase.
pub proof fn lemma_matching_sorted(ss: Seq<SentenceView>, needle: Seq<char>, n: nat)
    requires
        n <= usize::MAX,
    ensures
        matching(ss, needle, n).len() <= n,
        forall|k: int|
            0 <= k < matching(ss, needle, n).len() ==> #[trigger] matching(ss, needle, n)[k] < n,
        forall|a: int, b: int|
            0 <= a < b < matching(ss, needle, n).len() ==> matching(ss, needle, n)[a] < matching(
                ss,
                needle,
                n,
            )[b],
    decreases n,
{
    if n > 0 {
        let prev = matching(ss, needle, (n - 1) as nat);
        lemma_matching_sorted(ss, needle, (n - 1) as nat);
        if sentence_hit(ss[n - 1], needle) {
            let cur = prev.push((n - 1) as usize);
            assert forall|a: int, b: int| 0 <= a < b < cur.len() implies cur[a] < cur[b] by {
                if b == cur.len() - 1 {
                    assert(prev[a] < n - 1);
                } else {
                    assert(prev[a] < prev[b]);
                }
            }
        }
    }
}

/// With an empty filter every sentence matches, in order.
pub proof fn lemma_matching_all(ss: Seq<SentenceView>, needle: Seq<char>, n: nat)
    requires
        needle.len() == 0,
        n <= usize::MAX,
    ensures
        matching(ss, needle, n) == Seq::new(n, |i: int| i as usize),
    decreases n,
{
    if n > 0 {
        lemma_matching_all(ss, needle, (n - 1) as nat);
        assert(matching(ss, needle, n) =~= Seq::new(n, |i: int| i as usize));
    } else {
        assert(matching(ss, needle, n) =~= Seq::new(n, |i: int| i as usize));
    }
}

/// Whether sentence `s` matches the lower-cased filter `needle`.
fn hit(s: &Sentence, needle: &Vec<char>) -> (b: bool)
    ensures
        b == sentence_hit(s@, needle@),
{
    if needle.len() == 0 {
        return true;
    }
    let text = lowercase_chars(s.text.as_str());
    if contains(&text, needle) {
        return true;
    }
    let n = s.tags.len();
    for j in 0..n
        invariant
            n == s.tags@.len(),
            forall|t: int|
                0 <= t < j ==> !#[trigger] contains_seq(lowercase(s@.tags[t]), needle@),
    {
        let tag = lowercase_chars(s.tags[j].as_str());
        if contains(&tag, needle) {
            assert(contains_seq(lowercase(s@.tags[j as int]), needle@));
            return true;
        }
    }
    false
}

// ---------------------------------------------------------------------------
// Rules on plain values
// ---------------------------------------------------------------------------

/// The selection moved back into a list of `count` rows.
pub open spec fn clamp_index(sel: usize, count: nat) -> usize {
    if sel >= count {
        if count > 0 {
            (count - 1) as usize
        } else {
            0
        }
    } else {
        sel
    }
}

/// The speaking rate used when none is set (words per minute).
pub const DEFAULT_RATE: u32 = 175;

/// The star weight used when none is set.
pub const DEFAULT_STAR_WEIGHT: u32 = 3;

/// Milliseconds of silence appended to spoken text.
pub const TAIL_SILENCE_MS: u32 = 700;

/// The rate in words per minute: the configured one or the default.
pub open spec fn rate_of(st: SettingsView) -> u32 {
    match st.rate {
        Some(r) => r,
        None => DEFAULT_RATE,
    }
}

/// The star weight: the configured one (at least 1) or the default.
pub open spec fn star_weight_of(st: SettingsView) -> nat {
    match st.star_weight {
        Some(w) => if w >= 1 {
            w as nat
        } else {
            1
        },
        None => DEFAULT_STAR_WEIGHT as nat,
    }
}

/// `r` as an `i32` with two's complement wrap-around.
pub open spec fn wrapped_i32(r: u32) -> int {
    if r <= i32::MAX {
        r as int
    } else {
        r - 0x1_0000_0000
    }
}

/// The rate step of `delta` tens of words per minute stays within `i32`.
pub open spec fn rate_step_ok(st: SettingsView, delta: i32) -> bool {
    &&& i32::MIN <= delta * 10 <= i32::MAX
    &&& i32::MIN <= wrapped_i32(rate_of(st)) + delta * 10 <= i32::MAX
}

/// The rate after a step of `delta` tens of words per minute, kept within
/// 80 to 400.
pub open spec fn stepped_rate(st: SettingsView, delta: i32) -> u32 {
    let x = wrapped_i32(rate_of(st)) + delta * 10;
    (if x < 80 {
        80
    } else if x > 400 {
        400
    } else {
        x
    }) as u32
}

/// The arguments of the speech command for `text`: the voice (`-v`) and the
/// rate (`-r`) when set, then the text with a pause appended, so that the
/// speaker's clipping of the last sample falls on silence.
pub open spec fn say_arguments(st: SettingsView, text: Seq<char>) -> Seq<Seq<char>> {
    let v = match st.voice {
        Some(v) => seq!["-v"@, v],
        None => seq![],
    };
    let r = match st.rate {
        Some(r) => seq!["-r"@, decimal(r as nat)],
        None => seq![],
    };
    v + r + seq![text + " [[slnc "@ + decimal(TAIL_SILENCE_MS as nat) + "]]"@]
}

/// An effect that speaks, or does nothing.
pub open spec fn say_or_nothing(said: Option<Seq<Seq<char>>>) -> EffectView {
    match said {
        Some(a) => EffectView::Say(a),
        None => EffectView::Nothing,
    }
}

/// The arguments of the speech command for `text` with settings `st`.
pub fn say_args(st: &Settings, text: &str) -> (r: Vec<String>)
    ensures
        views(r@) == say_arguments(st@, text@),
{
    let mut r: Vec<String> = Vec::new();
    let ghost st_v = st@;
    match &st.voice {
        Some(v) => {
            r.push(owned("-v"));
            r.push(copy_string(v));
        },
        None => {},
    }
    let ghost after_voice = r@;
    match st.rate {
        Some(rate) => {
            r.push(owned("-r"));
            let mut s = String::new();
            push_decimal(&mut s, rate);
            r.push(s);
        },
        None => {},
    }
    let ghost after_rate = r@;
    let mut last = owned(text);
    push_str(&mut last, " [[slnc ");
    push_decimal(&mut last, TAIL_SILENCE_MS);
    push_str(&mut last, "]]");
    r.push(last);
    let ghost vpart = match st_v.voice {
        Some(v) => seq!["-v"@, v],
        None => Seq::<Seq<char>>::empty(),
    };
    let ghost rpart = match st_v.rate {
        Some(x) => seq!["-r"@, decimal(x as nat)],
        None => Seq::<Seq<char>>::empty(),
    };
    assert(views(after_voice) =~= vpart);
    assert(views(after_rate) =~= vpart + rpart);
    assert(views(r@) =~= say_arguments(st@, text@));
    r
}

/// Whether auto-play should move on: it is playing, nothing is being
/// spoken, and the pause after the last sentence has run out.
pub open spec fn tick_due(playing: bool, speaking: bool, pause_elapsed: bool) -> bool {
    playing && !speaking && pause_elapsed
}

/// What to do with the pause clock between auto-played sentences.
#[derive(Debug, Clone, Copy, PartialEq, Eq, Structural)]
pub enum PauseStep {
    /// Leave it as it is.
    Keep,
    /// Clear it: a sentence is still being read.
    Clear,
    /// Start it now: the sentence has just finished.
    Start,
}

/// The pause clock is armed only once the current sentence has finished,
/// so that a long sentence is never cut off by it.
pub open spec fn pause_step_spec(playing: bool, speaking: bool, armed: bool) -> PauseStep {
    if !playing {
        PauseStep::Keep
    } else if speaking {
        PauseStep::Clear
    } else if !armed {
        PauseStep::Start
    } else {
        PauseStep::Keep
    }
}

/// What to do with the pause clock, given whether auto-play is on, whether
/// a sentence is being spoken, and whether the clock is running.
pub fn pause_step(playing: bool, speaking: bool, armed: bool) -> (r: PauseStep)
    ensures
        r == pause_step_spec(playing, speaking, armed),
{
    if !playing {
        PauseStep::Keep
    } else if speaking {
        PauseStep::Clear
    } else if !armed {
        PauseStep::Start
    } else {
        PauseStep::Keep
    }
}

// ---------------------------------------------------------------------------
// Transitions on the app's contents
// ---------------------------------------------------------------------------

impl AppView {
    /// The indices of the sentences that match the current filter.
    pub open spec fn match_list(self) -> Seq<usize> {
        matching(self.sentences, lowercase(self.filter), self.sentences.len())
    }

    /// The number of sentences that match the current filter.
    pub open spec fn match_count(self) -> nat {
        self.match_list().len()
    }

    /// The index, among all sentences, of the selected row, if the selection
    /// is within the filtered list.
    pub open spec fn real_selected(self) -> Option<usize> {
        if self.selected < self.match_count() {
            Some(self.match_list()[self.selected as int])
        } else {
            None
        }
    }

    /// The row of the filtered list that shows sentence `i`, if it is shown.
    pub open spec fn row_of(self, i: usize) -> Option<usize> {
        if exists|r: int| 0 <= r < self.match_count() && #[trigger] self.match_list()[r] == i {
            Some(
                (choose|r: int| 0 <= r < self.match_count() && #[trigger] self.match_list()[r] == i) as usize,
            )
        } else {
            None
        }
    }

    /// The selection moved onto sentence `i`: its row when the filtered list
    /// shows it, else where it was.
    pub open spec fn highlight(self, i: usize) -> usize {
        match self.row_of(i) {
            Some(r) => r,
            None => self.selected,
        }
    }

    /// The selection moved back into the filtered list.
    pub open spec fn clamped(self) -> AppView {
        AppView { selected: clamp_index(self.selected, self.match_count()), ..self }
    }

    /// The highlight moved down one row, wrapping to the top.
    pub open spec fn after_next(self) -> AppView {
        let c = self.match_count();
        if c == 0 {
            self
        } else if self.selected + 1 >= c {
            AppView { selected: 0, ..self }
        } else {
            AppView { selected: (self.selected + 1) as usize, ..self }
        }
    }

    /// The highlight moved up one row, wrapping to the bottom.
    pub open spec fn after_previous(self) -> AppView {
        let c = self.match_count();
        if c == 0 {
            self
        } else if self.selected == 0 {
            AppView { selected: (c - 1) as usize, ..self }
        } else {
            AppView { selected: (self.selected - 1) as usize, ..self }
        }
    }

    /// The rate changed by `delta` steps of 10 words per minute.
    pub open spec fn after_adjust_rate(self, delta: i32) -> AppView {
        AppView {
            settings: SettingsView { rate: Some(stepped_rate(self.settings, delta)), ..self.settings },
            ..self
        }
    }

    /// The selected sentence's star flipped.
    pub open spec fn after_toggle_star(self) -> AppView {
        match self.real_selected() {
            Some(i) => AppView {
                sentences: self.sentences.update(
                    i as int,
                    SentenceView { starred: !self.sentences[i as int].starred, ..self.sentences[i as int] },
                ),
                ..self
            },
            None => self,
        }
    }

    /// Settings mode entered, with the buffers filled from the settings.
    pub open spec fn after_start_settings(self) -> AppView {
        AppView {
            set_voice: match self.settings.voice {
                Some(v) => v,
                None => seq![],
            },
            set_rate: match self.settings.rate {
                Some(r) => decimal(r as nat),
                None => seq![],
            },
            set_star_weight: match self.settings.star_weight {
                Some(w) => decimal(w as nat),
                None => seq![],
            },
            set_field: 0,
            mode: Mode::Settings,
            ..self
        }
    }

    /// The active Settings buffer with `f` applied.
    pub open spec fn with_settings_buffer(self, f: spec_fn(Seq<char>) -> Seq<char>) -> AppView {
        if self.set_field == 0 {
            AppView { set_voice: f(self.set_voice), ..self }
        } else if self.set_field == 1 {
            AppView { set_rate: f(self.set_rate), ..self }
        } else {
            AppView { set_star_weight: f(self.set_star_weight), ..self }
        }
    }

    /// `c` typed into the active Settings field; the numeric fields take
    /// digits only.
    pub open spec fn after_settings_char(self, c: char) -> AppView {
        if self.set_field != 0 && !is_digit(c) {
            self
        } else {
            self.with_settings_buffer(|b: Seq<char>| b.push(c))
        }
    }

    /// The last character of the active Settings field removed.
    pub open spec fn after_settings_backspace(self) -> AppView {
        self.with_settings_buffer(|b: Seq<char>| if b.len() > 0 { b.drop_last() } else { b })
    }

    /// The Settings buffers applied: an empty field unsets its setting, the
    /// numeric ones are parsed; back to Normal mode.
    pub open spec fn after_commit_settings(self) -> AppView {
        let voice = trimmed(self.set_voice);
        AppView {
            settings: SettingsView {
                voice: if voice.len() == 0 {
                    None
                } else {
                    Some(voice)
                },
                rate: parse_u32_spec(trimmed(self.set_rate)),
                star_weight: parse_u32_spec(trimmed(self.set_star_weight)),
                ..self.settings
            },
            mode: Mode::Normal,
            ..self
        }
    }

    /// Enter in Settings mode: the next field, or after the last one the
    /// buffers applied.
    pub open spec fn after_settings_enter(self) -> AppView {
        if self.set_field < 2 {
            AppView { set_field: (self.set_field + 1) as usize, ..self }
        } else {
            self.after_commit_settings()
        }
    }

    /// Add mode entered with empty buffers, for a new sentence.
    pub open spec fn after_start_add(self) -> AppView {
        AppView {
            mode: Mode::Add,
            add_field: 0,
            editing: None,
            add_text: seq![],
            add_tags: seq![],
            add_note: seq![],
            ..self
        }
    }

    /// Add mode entered to edit the selected sentence, with the buffers
    /// filled from it (tags joined by spaces); nothing without a selection.
    pub open spec fn after_start_edit(self) -> AppView {
        match self.real_selected() {
            Some(i) => AppView {
                add_text: self.sentences[i as int].text,
                add_tags: join(self.sentences[i as int].tags, seq![' ']),
                add_note: self.sentences[i as int].note,
                editing: Some(i),
                add_field: 0,
                mode: Mode::Add,
                ..self
            },
            None => self,
        }
    }

    /// Add mode left, buffers cleared.
    pub open spec fn after_cancel_add(self) -> AppView {
        AppView {
            mode: Mode::Normal,
            add_text: seq![],
            add_tags: seq![],
            add_note: seq![],
            add_field: 0,
            editing: None,
            ..self
        }
    }

    /// The active Add buffer with `f` applied.
    pub open spec fn with_add_buffer(self, f: spec_fn(Seq<char>) -> Seq<char>) -> AppView {
        if self.add_field == 0 {
            AppView { add_text: f(self.add_text), ..self }
        } else if self.add_field == 1 {
            AppView { add_tags: f(self.add_tags), ..self }
        } else {
            AppView { add_note: f(self.add_note), ..self }
        }
    }

    /// The sentence the Add buffers describe: trimmed text, parsed tags,
    /// trimmed note.
    pub open spec fn buffered_sentence(self, starred: bool) -> SentenceView {
        SentenceView {
            text: trimmed(self.add_text),
            tags: tags_of(self.add_tags),
            note: trimmed(self.add_note),
            starred,
        }
    }

    /// The sentence being edited, when it still exists.
    pub open spec fn editing_target(self) -> Option<usize> {
        match self.editing {
            Some(i) => if i < self.sentences.len() {
                Some(i)
            } else {
                None
            },
            None => None,
        }
    }

    /// The Add buffers committed, short of writing a new sentence to the
    /// file: an empty text cancels; an edit replaces the sentence being
    /// edited (keeping its star); a new sentence waits for the file write.
    pub open spec fn after_commit_add(self) -> AppView {
        if trimmed(self.add_text).len() == 0 {
            self.after_cancel_add()
        } else {
            match self.editing_target() {
                Some(i) => AppView {
                    sentences: self.sentences.update(
                        i as int,
                        self.buffered_sentence(self.sentences[i as int].starred),
                    ),
                    ..self
                }.clamped().after_cancel_add(),
                None => self,
            }
        }
    }

    /// What committing the Add buffers asks of the program around.
    pub open spec fn commit_add_effect(self) -> EffectView {
        if trimmed(self.add_text).len() == 0 {
            EffectView::Nothing
        } else {
            match self.editing_target() {
                Some(_) => EffectView::SaveAll,
                None => EffectView::Append(self.buffered_sentence(false)),
            }
        }
    }

    /// Enter in Add mode: advance text, tags, note, then commit; the text,
    /// the only required field, must not be blank to move on.
    pub open spec fn after_add_enter(self) -> AppView {
        if self.add_field == 0 {
            if trimmed(self.add_text).len() == 0 {
                self
            } else {
                AppView { add_field: 1, ..self }
            }
        } else if self.add_field == 1 {
            AppView { add_field: 2, ..self }
        } else {
            self.after_commit_add()
        }
    }

    /// What Enter in Add mode asks of the program around.
    pub open spec fn add_enter_effect(self) -> EffectView {
        if self.add_field <= 1 {
            EffectView::Nothing
        } else {
            self.commit_add_effect()
        }
    }

    /// The new sentence of the Add buffers kept in memory when its write
    /// succeeded, then the selection clamped and Add mode left.
    pub open spec fn after_finish_add(self, written: bool) -> AppView {
        let with = if written {
            AppView { sentences: self.sentences.push(self.buffered_sentence(false)), ..self }
        } else {
            self
        };
        with.clamped().after_cancel_add()
    }

    /// Delete confirmation asked for, when something is selected.
    pub open spec fn after_start_delete(self) -> AppView {
        if self.real_selected() is Some {
            AppView { mode: Mode::ConfirmDelete, ..self }
        } else {
            self
        }
    }

    /// The selected sentence removed and the selection clamped; back to
    /// Normal mode.
    pub open spec fn after_confirm_delete(self) -> AppView {
        match self.real_selected() {
            Some(i) => AppView {
                sentences: self.sentences.remove(i as int),
                mode: Mode::Normal,
                ..self
            }.clamped(),
            None => AppView { mode: Mode::Normal, ..self },
        }
    }

    /// Speech stopped.
    pub open spec fn after_stop(self) -> AppView {
        AppView { speaking_index: None, ..self }
    }

    /// The selected sentence handed to speech.
    pub open spec fn after_speak(self) -> AppView {
        match self.real_selected() {
            Some(i) => AppView { speaking_index: Some(i), ..self },
            None => self,
        }
    }

    /// The speech command for the selected sentence, if any.
    pub open spec fn speak_effect(self) -> EffectView {
        match self.real_selected() {
            Some(i) => EffectView::Say(say_arguments(self.settings, self.sentences[i as int].text)),
            None => EffectView::Nothing,
        }
    }

    /// The star weight in effect.
    pub open spec fn star_weight(self) -> nat {
        star_weight_of(self.settings)
    }

    /// `new` is this state with a freshly shuffled playlist: each sentence's
    /// index once, or star-weight times when starred, in some order; auto-play
    /// back at the start.
    pub open spec fn reshuffled(self, new: AppView) -> bool {
        &&& new == AppView { playlist: new.playlist, play_pos: 0, ..self }
        &&& new.playlist.to_multiset() == pool(
            self.sentences,
            self.star_weight(),
            self.sentences.len(),
        ).to_multiset()
    }

    /// `new` is this state after auto-play moved on, having spoken `said`:
    /// the playlist is reshuffled when used up; the next entry becomes the
    /// selection and is spoken when it is a sentence, and the position moves
    /// past it.
    pub open spec fn advanced(self, new: AppView, said: Option<Seq<Seq<char>>>) -> bool {
        let fresh = self.playlist.len() == 0 || self.play_pos >= self.playlist.len();
        &&& fresh ==> new.playlist.to_multiset() == pool(
            self.sentences,
            self.star_weight(),
            self.sentences.len(),
        ).to_multiset()
        &&& !fresh ==> new.playlist == self.playlist
        &&& if new.playlist.len() == 0 {
            &&& new == AppView { playlist: new.playlist, play_pos: 0, ..self }
            &&& said is None
        } else {
            let p: int = if fresh {
                0
            } else {
                self.play_pos as int
            };
            let entry = new.playlist[p];
            let spoken = entry < self.sentences.len();
            &&& new == AppView {
                playlist: new.playlist,
                play_pos: (p + 1) as usize,
                selected: self.highlight(entry),
                speaking_index: if spoken {
                    Some(entry)
                } else {
                    self.speaking_index
                },
                ..self
            }
            &&& said == if spoken {
                Some(say_arguments(self.settings, self.sentences[entry as int].text))
            } else {
                None
            }
        }
    }

    /// `new` is this state after auto-play was switched on, with effect
    /// `eff`: the filter cleared, a fresh shuffle, and the first sentence
    /// spoken.
    pub open spec fn play_started(self, new: AppView, eff: EffectView) -> bool {
        let on = AppView { playing: true, filter: seq![], mode: Mode::Normal, ..self };
        &&& eff matches EffectView::PlayStarted(said)
        &&& exists|m: AppView| #[trigger] on.reshuffled(m) && m.advanced(new, said)
    }

    /// `new` is this state after a clock tick, with outcome `r`: when auto-play
    /// is due to move on it has advanced, otherwise nothing changed.
    pub open spec fn ticked(
        self,
        speaking: bool,
        pause_elapsed: bool,
        new: AppView,
        r: Option<EffectView>,
    ) -> bool {
        if tick_due(self.playing, speaking, pause_elapsed) {
            &&& r matches Some(e)
            &&& exists|said: Option<Seq<Seq<char>>>| #[trigger] self.advanced(new, said) && e == say_or_nothing(said)
        } else {
            r is None && new == self
        }
    }

    /// `new` is this state after a key press, with effect `eff`.
    pub open spec fn key_step(self, key: Key, new: AppView, eff: EffectView) -> bool {
        match self.mode {
            Mode::Normal => match key {
                Key::Char('q') => new == self.after_stop() && eff == EffectView::Quit,
                Key::Down | Key::Right | Key::Char('j') => new == self.after_next() && eff
                    == EffectView::Nothing,
                Key::Up | Key::Left | Key::Char('k') => new == self.after_previous() && eff
                    == EffectView::Nothing,
                Key::Enter | Key::Char('p') => new == self.after_speak() && eff
                    == self.speak_effect(),
                Key::Char('/') => new == AppView { mode: Mode::Search, ..self } && eff
                    == EffectView::Nothing,
                Key::Char('a') => new == self.after_start_add() && eff == EffectView::Nothing,
                Key::Char('e') => new == self.after_start_edit() && eff == EffectView::Nothing,
                Key::Char('d') => new == self.after_start_delete() && eff == EffectView::Nothing,
                Key::Char('m') => new == self.after_toggle_star() && eff == if self.real_selected() is Some {
                    EffectView::SaveAll
                } else {
                    EffectView::Nothing
                },
                Key::Char('s') | Key::Char('S') => new == self.after_start_settings() && eff
                    == EffectView::Nothing,
                Key::Char('?') => new == AppView { mode: Mode::Help, ..self } && eff
                    == EffectView::Nothing,
                Key::Char(' ') => if self.playing {
                    new == AppView { playing: false, ..self }.after_stop() && eff
                        == EffectView::PlayStopped
                } else {
                    self.play_started(new, eff)
                },
                Key::Char('+') | Key::Char('=') => new == AppView {
                    pause_secs: (self.pause_secs + 1) as u64,
                    ..self
                } && eff == EffectView::Nothing,
                Key::Char('-') => new == (if self.pause_secs > 1 {
                    AppView { pause_secs: (self.pause_secs - 1) as u64, ..self }
                } else {
                    self
                }) && eff == EffectView::Nothing,
                Key::Char('>') | Key::Char('.') => new == self.after_adjust_rate(1i32) && eff
                    == EffectView::SaveAll,
                Key::Char('<') | Key::Char(',') => new == self.after_adjust_rate(-1i32) && eff
                    == EffectView::SaveAll,
                _ => new == self && eff == EffectView::Nothing,
            },
            Mode::Search => eff == EffectView::Nothing && match key {
                Key::Esc => new == AppView {
                    filter: seq![],
                    selected: 0,
                    mode: Mode::Normal,
                    ..self
                },
                Key::Enter => new == AppView { mode: Mode::Normal, ..self },
                Key::Backspace => new == AppView {
                    filter: if self.filter.len() > 0 {
                        self.filter.drop_last()
                    } else {
                        self.filter
                    },
                    selected: 0,
                    ..self
                },
                Key::Char(c) => new == AppView { filter: self.filter.push(c), selected: 0, ..self },
                _ => new == self,
            },
            Mode::Add => match key {
                Key::Esc => new == self.after_cancel_add() && eff == EffectView::Nothing,
                Key::Enter => new == self.after_add_enter() && eff == self.add_enter_effect(),
                Key::Backspace => new == self.with_add_buffer(
                    |b: Seq<char>| if b.len() > 0 { b.drop_last() } else { b },
                ) && eff == EffectView::Nothing,
                Key::Char(c) => new == self.with_add_buffer(|b: Seq<char>| b.push(c)) && eff
                    == EffectView::Nothing,
                _ => new == self && eff == EffectView::Nothing,
            },
            Mode::ConfirmDelete => match key {
                Key::Char('y') | Key::Char('Y') => new == self.after_confirm_delete() && eff
                    == if self.real_selected() is Some {
                    EffectView::SaveAll
                } else {
                    EffectView::Nothing
                },
                Key::Esc | Key::Char('n') | Key::Char('N') => new == AppView {
                    mode: Mode::Normal,
                    ..self
                } && eff == EffectView::Nothing,
                _ => new == self && eff == EffectView::Nothing,
            },
            Mode::Help => new == AppView { mode: Mode::Normal, ..self } && eff
                == EffectView::Nothing,
            Mode::Settings => match key {
                Key::Esc => new == AppView { mode: Mode::Normal, ..self } && eff
                    == EffectView::Nothing,
                Key::Enter => new == self.after_settings_enter() && eff == if self.set_field < 2 {
                    EffectView::Nothing
                } else {
                    EffectView::SaveAll
                },
                Key::Backspace => new == self.after_settings_backspace() && eff
                    == EffectView::Nothing,
                Key::Char(c) => new == self.after_settings_char(c) && eff == EffectView::Nothing,
                _ => new == self && eff == EffectView::Nothing,
            },
        }
    }

    /// What a key press needs so that no arithmetic overflows: room to
    /// lengthen the pause, and a rate step that fits in `i32`.
    pub open spec fn key_ok(self, key: Key) -> bool {
        self.mode == Mode::Normal ==> {
            &&& (key == Key::Char('+') || key == Key::Char('=')) ==> self.pause_secs < u64::MAX
            &&& (key == Key::Char('>') || key == Key::Char('.')) ==> rate_step_ok(self.settings, 1i32)
            &&& (key == Key::Char('<') || key == Key::Char(',')) ==> rate_step_ok(
                self.settings,
                -1i32,
            )
        }
    }
}


// ---------------------------------------------------------------------------
// The app's operations
// ---------------------------------------------------------------------------

impl App {
    /// A fresh app over the loaded sentences and settings: Normal mode,
    /// first row selected, no filter, auto-play off with a 4-second pause.
    pub fn new(config: Config) -> (app: App)
        ensures
            app@ == (AppView {
                sentences: sentence_views(config.sentences@),
                selected: 0,
                filter: seq![],
                mode: Mode::Normal,
                playing: false,
                playlist: seq![],
                play_pos: 0,
                pause_secs: 4,
                settings: config.settings@,
                speaking_index: None,
                add_text: seq![],
                add_tags: seq![],
                add_note: seq![],
                add_field: 0,
                editing: None,
                set_voice: seq![],
                set_rate: seq![],
                set_star_weight: seq![],
                set_field: 0,
            }),
    {
        let app = App {
            sentences: config.sentences,
            selected: 0,
            filter: String::new(),
            mode: Mode::Normal,
            playing: false,
            playlist: Vec::new(),
            play_pos: 0,
            pause_secs: 4,
            settings: config.settings,
            speaking_index: None,
            add_text: String::new(),
            add_tags: String::new(),
            add_note: String::new(),
            add_field: 0,
            editing: None,
            set_voice: String::new(),
            set_rate: String::new(),
            set_star_weight: String::new(),
            set_field: 0,
        };
        assert(app@.playlist =~= Seq::<usize>::empty());
        app
    }

    /// The indices of the sentences that match the current filter, in order.
    /// An empty filter matches everything; otherwise a sentence matches when
    /// the filter, case-insensitively, occurs in its text or in a tag.
    pub fn matches(&self) -> (r: Vec<usize>)
        ensures
            r@ == self@.match_list(),
            self.filter@.len() == 0 ==> r@ == Seq::new(
                self.sentences@.len(),
                |i: int| i as usize,
            ),
    {
        let needle = lowercase_chars(self.filter.as_str());
        let mut r: Vec<usize> = Vec::new();
        let n = self.sentences.len();
        for i in 0..n
            invariant
                n == self.sentences@.len(),
                needle@ == lowercase(self.filter@),
                r@ == matching(self@.sentences, needle@, i as nat),
        {
            if hit(&self.sentences[i], &needle) {
                r.push(i);
            }
        }
        proof {
            if self.filter@.len() == 0 {
                lemma_matching_all(self@.sentences, needle@, n as nat);
            }
        }
        r
    }

    /// The index, among all sentences, of the selected row.
    fn selected_real_index(&self) -> (r: Option<usize>)
        ensures
            r == self@.real_selected(),
            r matches Some(i) ==> i < self.sentences@.len(),
    {
        let m = self.matches();
        let n = self.sentences.len();
        proof {
            lemma_matching_sorted(self@.sentences, lowercase(self.filter@), n as nat);
        }
        if self.selected < m.len() {
            Some(m[self.selected])
        } else {
            None
        }
    }

    /// The row of the filtered list that shows sentence `entry`, if any.
    fn row_of(&self, entry: usize) -> (r: Option<usize>)
        ensures
            r == self@.row_of(entry),
    {
        let m = self.matches();
        let n = self.sentences.len();
        let len = m.len();
        for k in 0..len
            invariant
                len == m@.len(),
                m@ == self@.match_list(),
                n == self@.sentences.len(),
                forall|j: int| 0 <= j < k ==> m@[j] != entry,
        {
            if m[k] == entry {
                proof {
                    lemma_matching_sorted(self@.sentences, lowercase(self.filter@), n as nat);
                    let ml = self@.match_list();
                    assert(ml == matching(self@.sentences, lowercase(self.filter@), n as nat));
                    assert(0 <= k < self@.match_count() && ml[k as int] == entry);
                    let c = choose|r: int| 0 <= r < self@.match_count() && #[trigger] ml[r] == entry;
                    assert(0 <= c < ml.len() && ml[c] == entry);
                    if c > k {
                        assert(ml[k as int] < ml[c]);
                    }
                    assert(c == k);
                }
                return Some(k);
            }
        }
        None
    }

    /// The selected sentence, if a row is selected.
    pub fn selected_sentence(&self) -> (r: Option<&Sentence>)
        ensures
            r is Some <==> self@.real_selected() is Some,
            r matches Some(s) ==> s@ == self@.sentences[self@.real_selected()->0 as int],
    {
        match self.selected_real_index() {
            Some(i) => Some(&self.sentences[i]),
            None => None,
        }
    }

    /// The text of the selected sentence, if a row is selected.
    pub fn selected_text(&self) -> (r: Option<String>)
        ensures
            r is Some <==> self@.real_selected() is Some,
            r matches Some(t) ==> t@ == self@.sentences[self@.real_selected()->0 as int].text,
    {
        match self.selected_real_index() {
            Some(i) => Some(copy_string(&self.sentences[i].text)),
            None => None,
        }
    }

    /// The speaking rate in words per minute: the configured one, or the
    /// speech command's default when unset.
    pub fn rate_wpm(&self) -> (r: u32)
        ensures
            r == rate_of(self@.settings),
    {
        match self.settings.rate {
            Some(r) => r,
            None => DEFAULT_RATE,
        }
    }

    /// Changes the speaking rate by `delta` steps of 10 words per minute,
    /// kept within 80 to 400, and asks for the file to be saved.
    pub fn adjust_rate(&mut self, delta: i32) -> (e: Effect)
        requires
            rate_step_ok(old(self)@.settings, delta),
        ensures
            final(self)@ == old(self)@.after_adjust_rate(delta),
            e@ == EffectView::SaveAll,
    {
        let r = self.rate_wpm();
        let w: i32 = if r <= 0x7fff_ffff {
            r as i32
        } else {
            (r as i64 - 0x1_0000_0000) as i32
        };
        let x = w + delta * 10;
        let next: i32 = if x < 80 {
            80
        } else if x > 400 {
            400
        } else {
            x
        };
        self.settings.rate = Some(next as u32);
        Effect::SaveAll
    }

    /// Flips the star of the selected sentence and asks for the file to be
    /// saved; nothing without a selection.
    pub fn toggle_star(&mut self) -> (e: Effect)
        ensures
            final(self)@ == old(self)@.after_toggle_star(),
            e@ == if old(self)@.real_selected() is Some {
                EffectView::SaveAll
            } else {
                EffectView::Nothing
            },
    {
        match self.selected_real_index() {
            Some(i) => {
                let ghost before = self.sentences@;
                let mut tmp = Sentence {
                    text: String::new(),
                    tags: Vec::new(),
                    note: String::new(),
                    starred: false,
                };
                self.sentences.set_and_swap(i, &mut tmp);
                tmp.starred = !tmp.starred;
                let ghost flipped = tmp;
                self.sentences.set_and_swap(i, &mut tmp);
                assert(self.sentences@ == before.update(i as int, flipped));
                assert(sentence_views(self.sentences@) =~= sentence_views(before).update(
                    i as int,
                    SentenceView { starred: !before[i as int].starred, ..before[i as int]@ },
                ));
                Effect::SaveAll
            },
            None => Effect::Nothing,
        }
    }

    /// Enters Settings mode, with the buffers filled from the settings.
    pub fn start_settings(&mut self)
        ensures
            final(self)@ == old(self)@.after_start_settings(),
    {
        self.set_voice = match &self.settings.voice {
            Some(v) => copy_string(v),
            None => String::new(),
        };
        self.set_rate = match self.settings.rate {
            Some(r) => {
                let mut s = String::new();
                push_decimal(&mut s, r);
                s
            },
            None => String::new(),
        };
        self.set_star_weight = match self.settings.star_weight {
            Some(w) => {
                let mut s = String::new();
                push_decimal(&mut s, w);
                s
            },
            None => String::new(),
        };
        self.set_field = 0;
        self.mode = Mode::Settings;
    }

    /// Leaves Settings mode without saving.
    pub fn cancel_settings(&mut self)
        ensures
            final(self)@ == (AppView { mode: Mode::Normal, ..old(self)@ }),
    {
        self.mode = Mode::Normal;
    }

    /// Types `c` into the active Settings field; the numeric fields take
    /// digits only.
    pub fn settings_char(&mut self, c: char)
        ensures
            final(self)@ == old(self)@.after_settings_char(c),
    {
        if self.set_field != 0 && !is_ascii_digit(c) {
            return;
        }
        if self.set_field == 0 {
            push_char(&mut self.set_voice, c);
        } else if self.set_field == 1 {
            push_char(&mut self.set_rate, c);
        } else {
            push_char(&mut self.set_star_weight, c);
        }
    }

    /// Removes the last character of the active Settings field.
    pub fn settings_backspace(&mut self)
        ensures
            final(self)@ == old(self)@.after_settings_backspace(),
    {
        if self.set_field == 0 {
            pop_char(&mut self.set_voice);
        } else if self.set_field == 1 {
            pop_char(&mut self.set_rate);
        } else {
            pop_char(&mut self.set_star_weight);
        }
    }

    /// Enter in Settings mode: moves from voice to rate to star weight, then
    /// applies the buffers and asks for the file to be saved.
    pub fn settings_enter(&mut self) -> (e: Effect)
        ensures
            final(self)@ == old(self)@.after_settings_enter(),
            e@ == if old(self)@.set_field < 2 {
                EffectView::Nothing
            } else {
                EffectView::SaveAll
            },
    {
        if self.set_field < 2 {
            self.set_field = self.set_field + 1;
            Effect::Nothing
        } else {
            self.commit_settings();
            Effect::SaveAll
        }
    }

    /// Applies the Settings buffers (an empty field unsets its setting).
    fn commit_settings(&mut self)
        ensures
            final(self)@ == old(self)@.after_commit_settings(),
    {
        let voice = trim(self.set_voice.as_str());
        self.settings.voice = if voice.as_str().is_empty() {
            None
        } else {
            Some(voice)
        };
        let rate = trim(self.set_rate.as_str());
        self.settings.rate = parse_u32(rate.as_str());
        let weight = trim(self.set_star_weight.as_str());
        self.settings.star_weight = parse_u32(weight.as_str());
        self.mode = Mode::Normal;
    }

    /// The index of the sentence still being spoken, given whether speech is
    /// still running; speech that has finished is forgotten.
    pub fn poll_speaking(&mut self, still_speaking: bool) -> (r: Option<usize>)
        ensures
            final(self)@ == if still_speaking {
                old(self)@
            } else {
                old(self)@.after_stop()
            },
            r == final(self)@.speaking_index,
    {
        if !still_speaking {
            self.speaking_index = None;
        }
        self.speaking_index
    }

    /// Keeps the selection within the filtered list (e.g. after a delete).
    fn clamp_selected(&mut self)
        ensures
            final(self)@ == old(self)@.clamped(),
    {
        let count = self.matches().len();
        if self.selected >= count {
            self.selected = if count > 0 {
                count - 1
            } else {
                0
            };
        }
    }

    /// Enters Add mode for a new sentence, with empty buffers.
    pub fn start_add(&mut self)
        ensures
            final(self)@ == old(self)@.after_start_add(),
    {
        self.mode = Mode::Add;
        self.add_field = 0;
        self.editing = None;
        self.add_text = String::new();
        self.add_tags = String::new();
        self.add_note = String::new();
    }

    /// Enters Add mode to edit the selected sentence, with the buffers
    /// filled from it; nothing without a selection.
    pub fn start_edit(&mut self)
        ensures
            final(self)@ == old(self)@.after_start_edit(),
    {
        match self.selected_real_index() {
            Some(i) => {
                let s = &self.sentences[i];
                let text = copy_string(&s.text);
                let tags = join_with_spaces(&s.tags);
                let note = copy_string(&s.note);
                self.add_text = text;
                self.add_tags = tags;
                self.add_note = note;
                self.editing = Some(i);
                self.add_field = 0;
                self.mode = Mode::Add;
            },
            None => {},
        }
    }

    /// Leaves Add mode without saving, clearing the buffers.
    pub fn cancel_add(&mut self)
        ensures
            final(self)@ == old(self)@.after_cancel_add(),
    {
        self.mode = Mode::Normal;
        self.add_text = String::new();
        self.add_tags = String::new();
        self.add_note = String::new();
        self.add_field = 0;
        self.editing = None;
    }

    /// Types `c` into the active Add field.
    pub fn add_char(&mut self, c: char)
        ensures
            final(self)@ == old(self)@.with_add_buffer(|b: Seq<char>| b.push(c)),
    {
        if self.add_field == 0 {
            push_char(&mut self.add_text, c);
        } else if self.add_field == 1 {
            push_char(&mut self.add_tags, c);
        } else {
            push_char(&mut self.add_note, c);
        }
    }

    /// Removes the last character of the active Add field.
    pub fn add_backspace(&mut self)
        ensures
            final(self)@ == old(self)@.with_add_buffer(
                |b: Seq<char>| if b.len() > 0 { b.drop_last() } else { b },
            ),
    {
        if self.add_field == 0 {
            pop_char(&mut self.add_text);
        } else if self.add_field == 1 {
            pop_char(&mut self.add_tags);
        } else {
            pop_char(&mut self.add_note);
        }
    }

    /// Enter in Add mode: moves from text to tags to note, then commits. The
    /// text, the only required field, must not be blank to move on.
    pub fn add_enter(&mut self) -> (e: Effect)
        ensures
            final(self)@ == old(self)@.after_add_enter(),
            e@ == old(self)@.add_enter_effect(),
    {
        if self.add_field == 0 {
            let t = trim(self.add_text.as_str());
            if !t.as_str().is_empty() {
                self.add_field = 1;
            }
            Effect::Nothing
        } else if self.add_field == 1 {
            self.add_field = 2;
            Effect::Nothing
        } else {
            self.commit_add()
        }
    }

    /// Commits the Add buffers. An edit replaces the sentence in place and
    /// asks for the file to be rewritten; a new sentence is handed back to be
    /// appended to the file, and is kept only once that has succeeded.
    fn commit_add(&mut self) -> (e: Effect)
        ensures
            final(self)@ == old(self)@.after_commit_add(),
            e@ == old(self)@.commit_add_effect(),
    {
        let text = trim(self.add_text.as_str());
        if text.as_str().is_empty() {
            self.cancel_add();
            return Effect::Nothing;
        }
        let tags = parse_tags(self.add_tags.as_str());
        let note = trim(self.add_note.as_str());
        let target = match self.editing {
            Some(i) => if i < self.sentences.len() {
                Some(i)
            } else {
                None
            },
            None => None,
        };
        match target {
            Some(i) => {
                let ghost before = self@;
                let starred = self.sentences[i].starred;
                let s = Sentence { text, tags, note, starred };
                let ghost sv = s@;
                self.sentences.set(i, s);
                assert(sentence_views(self.sentences@) =~= before.sentences.update(i as int, sv));
                self.clamp_selected();
                self.cancel_add();
                Effect::SaveAll
            },
            None => Effect::Append(Sentence { text, tags, note, starred: false }),
        }
    }

    /// Finishes adding a new sentence once its write has been tried: when
    /// it was `written`, keeps the sentence that the Add buffers describe;
    /// then keeps the selection in range and leaves Add mode.
    pub fn finish_add(&mut self, written: bool)
        ensures
            final(self)@ == old(self)@.after_finish_add(written),
    {
        if written {
            let ghost before = self@;
            let s = self.buffered_sentence(false);
            self.sentences.push(s);
            assert(sentence_views(self.sentences@) =~= before.sentences.push(before.buffered_sentence(false)));
        }
        self.clamp_selected();
        self.cancel_add();
    }

    /// The sentence that the Add buffers describe: trimmed text, parsed
    /// tags, trimmed note.
    fn buffered_sentence(&self, starred: bool) -> (s: Sentence)
        ensures
            s@ == self@.buffered_sentence(starred),
    {
        let text = trim(self.add_text.as_str());
        let tags = parse_tags(self.add_tags.as_str());
        let note = trim(self.add_note.as_str());
        Sentence { text, tags, note, starred }
    }

    /// Asks for confirmation before deleting, when something is selected.
    pub fn start_delete(&mut self)
        ensures
            final(self)@ == old(self)@.after_start_delete(),
    {
        if self.selected_real_index().is_some() {
            self.mode = Mode::ConfirmDelete;
        }
    }

    /// Backs out of the delete confirmation.
    pub fn cancel_delete(&mut self)
        ensures
            final(self)@ == (AppView { mode: Mode::Normal, ..old(self)@ }),
    {
        self.mode = Mode::Normal;
    }

    /// Removes the selected sentence and asks for the file to be rewritten.
    pub fn confirm_delete(&mut self) -> (e: Effect)
        ensures
            final(self)@ == old(self)@.after_confirm_delete(),
            e@ == if old(self)@.real_selected() is Some {
                EffectView::SaveAll
            } else {
                EffectView::Nothing
            },
    {
        match self.selected_real_index() {
            Some(i) => {
                let ghost before = self.sentences@;
                self.sentences.remove(i);
                assert(sentence_views(self.sentences@) =~= sentence_views(before).remove(i as int));
                self.mode = Mode::Normal;
                self.clamp_selected();
                Effect::SaveAll
            },
            None => {
                self.mode = Mode::Normal;
                Effect::Nothing
            },
        }
    }

    /// Forgets the sentence being spoken (the caller stops the speech).
    pub fn stop(&mut self)
        ensures
            final(self)@ == old(self)@.after_stop(),
    {
        self.speaking_index = None;
    }

    /// Builds a new shuffled playlist. Starred sentences appear star-weight
    /// times (default 3, at least 1, so they are never dropped), the others
    /// once; auto-play goes back to its start.
    pub fn reshuffle(&mut self)
        ensures
            old(self)@.reshuffled(final(self)@),
    {
        let w: u32 = match self.settings.star_weight {
            Some(w) => if w >= 1 {
                w
            } else {
                1
            },
            None => DEFAULT_STAR_WEIGHT,
        };
        let mut p = weighted_pool(&self.sentences, w as usize);
        shuffle(&mut p);
        self.playlist = p;
        self.play_pos = 0;
    }

    /// Moves auto-play on: reshuffles when the playlist is used up, selects
    /// the next sentence and hands back the command that speaks it.
    pub fn advance(&mut self) -> (e: Effect)
        ensures
            exists|said: Option<Seq<Seq<char>>>|
                old(self)@.advanced(final(self)@, said) && e@ == say_or_nothing(said),
    {
        let ghost start = self@;
        let fresh = self.playlist.len() == 0 || self.play_pos >= self.playlist.len();
        if fresh {
            self.reshuffle();
        }
        if self.playlist.len() == 0 {
            assert(start.advanced(self@, None) && Effect::Nothing@ == say_or_nothing(None));
            return Effect::Nothing;
        }
        let entry = self.playlist[self.play_pos];
        assert(self@.match_list() == start.match_list());
        assert(self@.row_of(entry) == start.row_of(entry));
        match self.row_of(entry) {
            Some(r) => self.selected = r,
            None => {},
        }
        let mut e = Effect::Nothing;
        let ghost mut said: Option<Seq<Seq<char>>> = None;
        if entry < self.sentences.len() {
            let args = say_args(&self.settings, self.sentences[entry].text.as_str());
            proof {
                said = Some(views(args@));
            }
            self.speaking_index = Some(entry);
            e = Effect::Say(args);
        }
        self.play_pos = self.play_pos + 1;
        assert(start.advanced(self@, said));
        assert(e@ == say_or_nothing(said));
        e
    }

    /// The sentence most recently started by auto-play (the one being read,
    /// or the last one read during the pause before the next); `None` before
    /// the first, or when its entry is gone.
    pub fn now_playing(&self) -> (r: Option<&Sentence>)
        ensures
            r is Some <==> (self.play_pos > 0 && self.play_pos - 1 < self.playlist@.len()
                && self.playlist@[self.play_pos - 1] < self.sentences@.len()),
            r matches Some(s) ==> s@ == self@.sentences[self.playlist@[self.play_pos - 1] as int],
    {
        if self.play_pos == 0 {
            return None;
        }
        let p = self.play_pos - 1;
        if p < self.playlist.len() {
            let i = self.playlist[p];
            if i < self.sentences.len() {
                return Some(&self.sentences[i]);
            }
        }
        None
    }

    /// Moves the highlight down one row of the filtered list, wrapping to
    /// the top.
    pub fn next(&mut self)
        ensures
            final(self)@ == old(self)@.after_next(),
    {
        let count = self.matches().len();
        if count == 0 {
            return;
        }
        if self.selected >= count - 1 {
            self.selected = 0;
        } else {
            self.selected = self.selected + 1;
        }
    }

    /// Moves the highlight up one row of the filtered list, wrapping to the
    /// bottom.
    pub fn previous(&mut self)
        ensures
            final(self)@ == old(self)@.after_previous(),
    {
        let count = self.matches().len();
        if count == 0 {
            return;
        }
        if self.selected == 0 {
            self.selected = count - 1;
        } else {
            self.selected = self.selected - 1;
        }
    }

    /// Hands back the command that speaks the selected sentence.
    pub fn speak(&mut self) -> (e: Effect)
        ensures
            final(self)@ == old(self)@.after_speak(),
            e@ == old(self)@.speak_effect(),
    {
        match self.selected_real_index() {
            Some(i) => {
                let args = say_args(&self.settings, self.sentences[i].text.as_str());
                self.speaking_index = Some(i);
                Effect::Say(args)
            },
            None => Effect::Nothing,
        }
    }

    /// Starts auto-play over all sentences: filter cleared, fresh shuffle,
    /// first sentence spoken.
    fn start_playing(&mut self) -> (e: Effect)
        requires
            old(self).mode == Mode::Normal,
            !old(self).playing,
        ensures
            old(self)@.play_started(final(self)@, e@),
    {
        self.playing = true;
        self.filter = String::new();
        self.mode = Mode::Normal;
        let ghost first = self@;
        self.reshuffle();
        let ghost m = self@;
        let e = self.advance();
        let ghost said = choose|said: Option<Seq<Seq<char>>>|
            m.advanced(self@, said) && e@ == say_or_nothing(said);
        let started = match e {
            Effect::Say(a) => Some(a),
            _ => None,
        };
        let r = Effect::PlayStarted(started);
        assert(first.reshuffled(m) && m.advanced(self@, said));
        assert(r@ == EffectView::PlayStarted(said));
        assert(old(self)@.play_started(self@, r@));
        r
    }

    /// Handles a key press in the current mode and hands back what the
    /// program around has to do.
    pub fn handle_key(&mut self, key: Key) -> (e: Effect)
        requires
            old(self)@.key_ok(key),
        ensures
            old(self)@.key_step(key, final(self)@, e@),
    {
        match self.mode {
            Mode::Normal => match key {
                Key::Char('q') => {
                    self.stop();
                    Effect::Quit
                },
                Key::Down | Key::Right | Key::Char('j') => {
                    self.next();
                    Effect::Nothing
                },
                Key::Up | Key::Left | Key::Char('k') => {
                    self.previous();
                    Effect::Nothing
                },
                Key::Enter | Key::Char('p') => self.speak(),
                Key::Char('/') => {
                    self.mode = Mode::Search;
                    Effect::Nothing
                },
                Key::Char('a') => {
                    self.start_add();
                    Effect::Nothing
                },
                Key::Char('e') => {
                    self.start_edit();
                    Effect::Nothing
                },
                Key::Char('d') => {
                    self.start_delete();
                    Effect::Nothing
                },
                Key::Char('m') => self.toggle_star(),
                Key::Char('s') | Key::Char('S') => {
                    self.start_settings();
                    Effect::Nothing
                },
                Key::Char('?') => {
                    self.mode = Mode::Help;
                    Effect::Nothing
                },
                Key::Char(' ') => {
                    if self.playing {
                        self.playing = false;
                        self.stop();
                        Effect::PlayStopped
                    } else {
                        self.start_playing()
                    }
                },
                Key::Char('+') | Key::Char('=') => {
                    self.pause_secs = self.pause_secs + 1;
                    Effect::Nothing
                },
                Key::Char('-') => {
                    if self.pause_secs > 1 {
                        self.pause_secs = self.pause_secs - 1;
                    }
                    Effect::Nothing
                },
                Key::Char('>') | Key::Char('.') => self.adjust_rate(1),
                Key::Char('<') | Key::Char(',') => self.adjust_rate(-1),
                _ => Effect::Nothing,
            },
            Mode::Search => {
                match key {
                    Key::Esc => {
                        self.filter = String::new();
                        self.selected = 0;
                        self.mode = Mode::Normal;
                    },
                    Key::Enter => {
                        self.mode = Mode::Normal;
                    },
                    Key::Backspace => {
                        pop_char(&mut self.filter);
                        self.selected = 0;
                    },
                    Key::Char(c) => {
                        push_char(&mut self.filter, c);
                        self.selected = 0;
                    },
                    _ => {},
                }
                Effect::Nothing
            },
            Mode::Add => match key {
                Key::Esc => {
                    self.cancel_add();
                    Effect::Nothing
                },
                Key::Enter => self.add_enter(),
                Key::Backspace => {
                    self.add_backspace();
                    Effect::Nothing
                },
                Key::Char(c) => {
                    self.add_char(c);
                    Effect::Nothing
                },
                _ => Effect::Nothing,
            },
            Mode::ConfirmDelete => match key {
                Key::Char('y') | Key::Char('Y') => self.confirm_delete(),
                Key::Esc | Key::Char('n') | Key::Char('N') => {
                    self.cancel_delete();
                    Effect::Nothing
                },
                _ => Effect::Nothing,
            },
            Mode::Help => {
                self.mode = Mode::Normal;
                Effect::Nothing
            },
            Mode::Settings => match key {
                Key::Esc => {
                    self.cancel_settings();
                    Effect::Nothing
                },
                Key::Enter => self.settings_enter(),
                Key::Backspace => {
                    self.settings_backspace();
                    Effect::Nothing
                },
                Key::Char(c) => {
                    self.settings_char(c);
                    Effect::Nothing
                },
                _ => Effect::Nothing,
            },
        }
    }

    /// A clock tick of auto-play: when it is playing, nothing is being
    /// spoken and the pause has run out, moves on to the next sentence (the
    /// caller then restarts the pause clock and performs the effect).
    pub fn tick(&mut self, speaking: bool, pause_elapsed: bool) -> (r: Option<Effect>)
        ensures
            old(self)@.ticked(
                speaking,
                pause_elapsed,
                final(self)@,
                match r {
                    Some(e) => Some(e@),
                    None => None,
                },
            ),
    {
        if self.playing && !speaking && pause_elapsed {
            Some(self.advance())
        } else {
            None
        }
    }
}


// ---------------------------------------------------------------------------
// Laws
// ---------------------------------------------------------------------------

/// Moving the highlight keeps it on a row of the filtered list, wrapping
/// around at either end.
pub proof fn lemma_navigation_in_range(a: AppView)
    requires
        a.selected < a.match_count(),
        a.sentences.len() <= usize::MAX,
    ensures
        a.after_next().selected < a.match_count(),
        a.after_previous().selected < a.match_count(),
        a.selected == a.match_count() - 1 ==> a.after_next().selected == 0,
        a.selected == 0 ==> a.after_previous().selected == a.match_count() - 1,
{
    lemma_matching_sorted(a.sentences, lowercase(a.filter), a.sentences.len());
}

/// After clamping, the selection is a row of the filtered list whenever
/// the list has one, so edits and deletes leave it in range.
pub proof fn lemma_clamped_in_range(a: AppView)
    ensures
        a.clamped().match_count() > 0 ==> a.clamped().selected < a.clamped().match_count(),
        a.selected < a.match_count() ==> a.clamped() == a,
{
}

/// A fresh shuffle holds each sentence once, or star-weight times when it is
/// starred, and nothing else; the star weight is at least 1, so starred
/// sentences are never dropped.
pub proof fn lemma_reshuffle_weights(a: AppView, b: AppView, i: usize)
    requires
        a.reshuffled(b),
        a.sentences.len() <= usize::MAX,
    ensures
        b.playlist.to_multiset().count(i) == if i < a.sentences.len() {
            crate::playlist::weight(a.sentences[i as int], a.star_weight())
        } else {
            0
        },
        a.star_weight() >= 1,
{
    crate::playlist::lemma_pool_count(a.sentences, a.star_weight(), a.sentences.len(), i);
}

/// A rate step always lands between 80 and 400 words per minute.
pub proof fn lemma_rate_bounds(a: AppView, delta: i32)
    ensures
        80 <= a.after_adjust_rate(delta).settings.rate->0 <= 400,
        a.after_adjust_rate(delta).settings.rate is Some,
{
}

/// Opening the Settings screen and pressing Enter through its three fields
/// keeps the settings, provided the voice has no surrounding whitespace.
pub proof fn lemma_settings_roundtrip(a: AppView)
    requires
        a.settings.voice matches Some(v) ==> v.len() > 0 && trimmed(v) == v,
    ensures
        a.after_start_settings().after_settings_enter().after_settings_enter().after_settings_enter().settings
            == a.settings,
{
    match a.settings.rate {
        Some(r) => crate::text::lemma_decimal_roundtrip(r),
        None => {},
    }
    match a.settings.star_weight {
        Some(w) => crate::text::lemma_decimal_roundtrip(w),
        None => {},
    }
    let s = a.after_start_settings();
    assert(trimmed(Seq::<char>::empty()) == Seq::<char>::empty());
    assert(parse_u32_spec(Seq::<char>::empty()) is None);
    let c = s.after_settings_enter().after_settings_enter().after_settings_enter();
    assert(c.settings == AppView { set_field: 2, ..s }.after_commit_settings().settings);
    assert(c.settings =~= a.settings);
}

/// Typing into the Settings screen keeps the numeric fields digits only.
pub proof fn lemma_settings_digits(a: AppView, c: char)
    requires
        crate::text::all_digits(a.set_rate),
        crate::text::all_digits(a.set_star_weight),
    ensures
        crate::text::all_digits(a.after_settings_char(c).set_rate),
        crate::text::all_digits(a.after_settings_char(c).set_star_weight),
        crate::text::all_digits(a.after_settings_backspace().set_rate),
        crate::text::all_digits(a.after_settings_backspace().set_star_weight),
{
    let b = a.after_settings_char(c);
    assert forall|i: int| 0 <= i < b.set_rate.len() implies #[trigger] is_digit(b.set_rate[i]) by {
        if i < a.set_rate.len() {
            assert(b.set_rate[i] == a.set_rate[i]);
        }
    }
    assert forall|i: int| 0 <= i < b.set_star_weight.len() implies #[trigger] is_digit(
        b.set_star_weight[i],
    ) by {
        if i < a.set_star_weight.len() {
            assert(b.set_star_weight[i] == a.set_star_weight[i]);
        }
    }
    let d = a.after_settings_backspace();
    assert forall|i: int| 0 <= i < d.set_rate.len() implies #[trigger] is_digit(d.set_rate[i]) by {
        assert(d.set_rate[i] == a.set_rate[i]);
    }
    assert forall|i: int| 0 <= i < d.set_star_weight.len() implies #[trigger] is_digit(
        d.set_star_weight[i],
    ) by {
        assert(d.set_star_weight[i] == a.set_star_weight[i]);
    }
}


/// A sentence that editing leaves as it is: its text is non-blank and both
/// text and note have no surrounding whitespace, and each tag is a
/// non-empty word without whitespace that does not start with `#`.
pub open spec fn edit_stable(s: SentenceView) -> bool {
    &&& s.text.len() > 0
    &&& trimmed(s.text) == s.text
    &&& trimmed(s.note) == s.note
    &&& forall|k: int|
        0 <= k < s.tags.len() ==> (#[trigger] s.tags[k]).len() > 0 && crate::text::no_white(
            s.tags[k],
        ) && s.tags[k][0] != '#'
}

/// Opening the selected sentence for editing and pressing Enter through its
/// three fields without typing writes back the same sentence, keeps the
/// selection and returns to Normal mode.
pub proof fn lemma_edit_roundtrip(a: AppView)
    requires
        a.real_selected() matches Some(i) && edit_stable(a.sentences[i as int]),
        a.sentences.len() <= usize::MAX,
    ensures
        ({
            let b = a.after_start_edit().after_add_enter().after_add_enter().after_add_enter();
            &&& b.sentences == a.sentences
            &&& b.selected == a.selected
            &&& b.mode == Mode::Normal
        }),
{
    let i = a.real_selected()->0;
    lemma_matching_sorted(a.sentences, lowercase(a.filter), a.sentences.len());
    let s = a.sentences[i as int];
    crate::text::lemma_tags_of_joined(s.tags);
    let e0 = a.after_start_edit();
    let e3 = AppView { add_field: 2, ..e0 };
    assert(a.after_start_edit().after_add_enter().after_add_enter() == e3);
    assert(e3.buffered_sentence(s.starred) == s);
    assert(a.sentences.update(i as int, s) == a.sentences);
    let mid = AppView { sentences: a.sentences, ..e3 };
    assert(mid.match_list() == a.match_list());
    assert(e3.after_commit_add() == mid.clamped().after_cancel_add());
}


/// When auto-play moves to a sentence that the filtered list shows, the
/// highlight lands on that sentence's row; otherwise it stays where it was.
pub proof fn lemma_advance_highlights(a: AppView, b: AppView, said: Option<Seq<Seq<char>>>)
    requires
        a.advanced(b, said),
        b.playlist.len() > 0,
        b.playlist.len() <= usize::MAX,
        a.sentences.len() <= usize::MAX,
    ensures
        b.play_pos >= 1,
        a.row_of(b.playlist[b.play_pos - 1]) is Some ==> b.real_selected() == Some(
            b.playlist[b.play_pos - 1],
        ),
        a.row_of(b.playlist[b.play_pos - 1]) is None ==> b.selected == a.selected,
{
    let fresh = a.playlist.len() == 0 || a.play_pos >= a.playlist.len();
    let p: int = if fresh {
        0
    } else {
        a.play_pos as int
    };
    assert(b.play_pos == p + 1);
    let e = b.playlist[b.play_pos - 1];
    assert(e == b.playlist[p]);
    assert(b.match_list() == a.match_list());
    lemma_matching_sorted(a.sentences, lowercase(a.filter), a.sentences.len());
    if a.row_of(e) is Some {
        let r = choose|r: int| 0 <= r < a.match_count() && #[trigger] a.match_list()[r] == e;
        assert(b.selected == r);
    }
}


/// A sentence is listed exactly when it matches the filter.
proof fn lemma_matching_members(ss: Seq<SentenceView>, needle: Seq<char>, n: nat)
    requires
        n <= usize::MAX,
        n <= ss.len(),
    ensures
        forall|i: int|
            0 <= i < n ==> (matching(ss, needle, n).contains(i as usize) <==> #[trigger] sentence_hit(
                ss[i],
                needle,
            )),
        forall|x: usize| #[trigger] matching(ss, needle, n).contains(x) ==> x < n,
    decreases n,
{
    lemma_matching_sorted(ss, needle, n);
    if n > 0 {
        let m = (n - 1) as nat;
        lemma_matching_members(ss, needle, m);
        let prev = matching(ss, needle, m);
        let cur = matching(ss, needle, n);
        assert forall|i: int| 0 <= i < n implies (cur.contains(i as usize) <==> #[trigger] sentence_hit(
            ss[i],
            needle,
        )) by {
            if i < m {
                if sentence_hit(ss[m as int], needle) {
                    assert(cur == prev.push(m as usize));
                    if cur.contains(i as usize) {
                        let k = choose|k: int| 0 <= k < cur.len() && cur[k] == i as usize;
                        if k < prev.len() {
                            assert(prev[k] == cur[k]);
                        }
                    }
                    if prev.contains(i as usize) {
                        let k = choose|k: int| 0 <= k < prev.len() && prev[k] == i as usize;
                        assert(cur[k] == prev[k]);
                    }
                }
            } else {
                if sentence_hit(ss[m as int], needle) {
                    assert(cur[cur.len() - 1] == m as usize);
                } else {
                    if prev.contains(m as usize) {
                        let k = choose|k: int| 0 <= k < prev.len() && prev[k] == m as usize;
                        assert(prev[k] < m);
                    }
                }
            }
        }
        assert forall|x: usize| #[trigger] cur.contains(x) implies x < n by {
            let k = choose|k: int| 0 <= k < cur.len() && cur[k] == x;
            assert(cur[k] < n);
        }
    }
}

/// The search covers text and every tag, ignoring case: a sentence whose
/// text or any of whose tags, in lower case, holds the lower-cased filter is
/// listed; an empty filter lists everything; and nothing else is listed.
pub proof fn lemma_search_text_and_tags(a: AppView, i: int)
    requires
        0 <= i < a.sentences.len(),
        a.sentences.len() <= usize::MAX,
    ensures
        forall|t: int|
            0 <= t < a.sentences[i].tags.len() && contains_seq(
                lowercase(#[trigger] a.sentences[i].tags[t]),
                lowercase(a.filter),
            ) ==> a.match_list().contains(i as usize),
        contains_seq(lowercase(a.sentences[i].text), lowercase(a.filter)) ==> a.match_list().contains(
            i as usize,
        ),
        lowercase(a.filter).len() == 0 ==> a.match_list().contains(i as usize),
        a.match_list().contains(i as usize) ==> {
            ||| lowercase(a.filter).len() == 0
            ||| contains_seq(lowercase(a.sentences[i].text), lowercase(a.filter))
            ||| exists|t: int|
                0 <= t < a.sentences[i].tags.len() && contains_seq(
                    lowercase(#[trigger] a.sentences[i].tags[t]),
                    lowercase(a.filter),
                )
        },
{
    lemma_matching_members(a.sentences, lowercase(a.filter), a.sentences.len());
    assert(sentence_hit(a.sentences[i], lowercase(a.filter)) == a.match_list().contains(i as usize));
}

/// Confirming a delete removes the selected sentence (the one the
/// highlighted row of the filtered list shows) and keeps every other one,
/// in order.
pub proof fn lemma_delete_removes_selected(a: AppView)
    requires
        a.real_selected() is Some,
        a.sentences.len() <= usize::MAX,
    ensures
        ({
            let i = a.real_selected()->0 as int;
            let b = a.after_confirm_delete();
            &&& 0 <= i < a.sentences.len()
            &&& b.sentences.len() == a.sentences.len() - 1
            &&& forall|j: int| 0 <= j < i ==> #[trigger] b.sentences[j] == a.sentences[j]
            &&& forall|j: int| i <= j < b.sentences.len() ==> #[trigger] b.sentences[j] == a.sentences[j + 1]
        }),
{
    lemma_matching_sorted(a.sentences, lowercase(a.filter), a.sentences.len());
}

/// The speech command passes the rate, when one is set, as `-r` followed by
/// the rate in decimal, whether or not a voice is set; it passes the voice,
/// when set, as `-v` followed by the voice, and `-v` appears only then; its
/// last argument is the text with the pause appended.
pub proof fn lemma_say_arguments(st: SettingsView, text: Seq<char>)
    ensures
        ({
            let args = say_arguments(st, text);
            &&& st.rate matches Some(r) ==> exists|k: int|
                0 <= k && k + 1 < args.len() && #[trigger] args[k] == "-r"@ && args[k + 1] == decimal(
                    r as nat,
                )
            &&& st.voice matches Some(v) ==> args[0] == "-v"@ && args[1] == v
            &&& (exists|k: int| 0 <= k < args.len() && #[trigger] args[k] == "-v"@) ==> st.voice is Some
            &&& args.len() > 0 && args.last() == text + " [[slnc "@ + decimal(TAIL_SILENCE_MS as nat)
                + "]]"@
        }),
{
    reveal_strlit("-v");
    reveal_strlit("-r");
    reveal_strlit("]]");
    let args = say_arguments(st, text);
    let vp = match st.voice {
        Some(v) => seq!["-v"@, v],
        None => Seq::<Seq<char>>::empty(),
    };
    let rp = match st.rate {
        Some(r) => seq!["-r"@, decimal(r as nat)],
        None => Seq::<Seq<char>>::empty(),
    };
    let last = text + " [[slnc "@ + decimal(TAIL_SILENCE_MS as nat) + "]]"@;
    assert(args == vp + rp + seq![last]);
    match st.rate {
        Some(r) => {
            let k = vp.len() as int;
            assert(args[k] == "-r"@);
        },
        None => {},
    }
    if st.voice is None {
        assert forall|k: int| 0 <= k < args.len() implies #[trigger] args[k] != "-v"@ by {
            if k == args.len() - 1 {
                assert(args[k].len() >= 2);
                assert(args[k][args[k].len() - 1] == ']');
                assert("-v"@[1] == 'v');
            } else {
                match st.rate {
                    Some(r) => {
                        if k == 0 {
                            assert("-r"@[1] == 'r');
                            assert("-v"@[1] == 'v');
                        } else {
                            crate::text::lemma_decimal_value(r as nat);
                            let d = decimal(r as nat);
                            assert(crate::text::is_digit(d[0]));
                            assert("-v"@[0] == '-');
                        }
                    },
                    None => {},
                }
            }
        }
    }
}

/// Committing an edit of sentence `i` with a non-blank text writes the
/// trimmed text, the parsed tags and the trimmed note into sentence `i`,
/// keeps its star and every other sentence, asks for the file to be saved,
/// and leaves Add mode.
pub proof fn lemma_edit_writes_fields(a: AppView, i: usize)
    requires
        a.mode == Mode::Add,
        a.add_field >= 2,
        a.editing == Some(i),
        i < a.sentences.len(),
        trimmed(a.add_text).len() > 0,
    ensures
        ({
            let b = a.after_add_enter();
            &&& b.sentences.len() == a.sentences.len()
            &&& b.sentences[i as int].text == trimmed(a.add_text)
            &&& b.sentences[i as int].tags == tags_of(a.add_tags)
            &&& b.sentences[i as int].note == trimmed(a.add_note)
            &&& b.sentences[i as int].starred == a.sentences[i as int].starred
            &&& forall|j: int|
                0 <= j < a.sentences.len() && j != i ==> #[trigger] b.sentences[j] == a.sentences[j]
            &&& a.add_enter_effect() == EffectView::SaveAll
            &&& b.mode == Mode::Normal
            &&& b.editing is None
        }),
{
}

} // verus!
