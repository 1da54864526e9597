//! The sentence library, its settings, and the practice statistics.
use vstd::prelude::*;
use crate::clock::today_number;
use crate::text::{
    basic_string_body, escaped, join, lemma_escaped_reads_back, push_char, push_escaped, push_str,
    unescaped, views,
};

verus! {

// ---------------------------------------------------------------------------
// Sentences and settings
// ---------------------------------------------------------------------------

/// One practice sentence.
#[derive(Debug)]
pub struct Sentence {
    pub text: String,
    pub tags: Vec<String>,
    /// A free-form note; empty when there is none.
    pub note: String,
    /// Marked as difficult: weighted to come up more often in auto-play.
    pub starred: bool,
}

/// The contents of a sentence.
pub struct SentenceView {
    pub text: Seq<char>,
    pub tags: Seq<Seq<char>>,
    pub note: Seq<char>,
    pub starred: bool,
}

impl View for Sentence {
    type V = SentenceView;

    open spec fn view(&self) -> SentenceView {
        SentenceView {
            text: self.text@,
            tags: views(self.tags@),
            note: self.note@,
            starred: self.starred,
        }
    }
}

/// The contents of each sentence of a list.
pub open spec fn sentence_views(v: Seq<Sentence>) -> Seq<SentenceView> {
    v.map_values(|s: Sentence| s@)
}

/// Whether `b` is false (the serialised form leaves such a field out).
pub fn is_false(b: &bool) -> (r: bool)
    ensures
        r == !*b,
{
    !*b
}

/// How the main screen is arranged.
#[derive(Debug, Clone, Copy, PartialEq, Eq, Structural)]
pub enum Layout {
    Classic,
    Stacked,
}

/// Optional settings: the voice and rate handed to the speech command, how
/// many times a starred sentence is weighted in the auto-play shuffle, and
/// the screen layout. Absent fields fall back to defaults.
#[derive(Debug)]
pub struct Settings {
    pub voice: Option<String>,
    pub rate: Option<u32>,
    pub star_weight: Option<u32>,
    pub layout: Option<Layout>,
}

/// The contents of the settings.
pub struct SettingsView {
    pub voice: Option<Seq<char>>,
    pub rate: Option<u32>,
    pub star_weight: Option<u32>,
    pub layout: Option<Layout>,
}

/// The view of an optional string.
pub open spec fn opt_view(o: Option<String>) -> Option<Seq<char>> {
    match o {
        Some(s) => Some(s@),
        None => None,
    }
}

impl View for Settings {
    type V = SettingsView;

    open spec fn view(&self) -> SettingsView {
        SettingsView {
            voice: opt_view(self.voice),
            rate: self.rate,
            star_weight: self.star_weight,
            layout: self.layout,
        }
    }
}

impl Settings {
    /// No setting is given.
    pub open spec fn spec_is_default(&self) -> bool {
        &&& self.voice is None
        &&& self.rate is None
        &&& self.star_weight is None
        &&& self.layout is None
    }

    /// Whether no setting is given.
    pub fn is_default(&self) -> (r: bool)
        ensures
            r == self.spec_is_default(),
    {
        self.voice.is_none() && self.rate.is_none() && self.star_weight.is_none()
            && self.layout.is_none()
    }
}

impl Default for Settings {
    fn default() -> (s: Self)
        ensures
            s.spec_is_default(),
    {
        Settings { voice: None, rate: None, star_weight: None, layout: None }
    }
}

/// Everything loaded from the sentence file.
#[derive(Debug)]
pub struct Config {
    pub settings: Settings,
    pub sentences: Vec<Sentence>,
}

// ---------------------------------------------------------------------------
// The block appended to the sentence file for a new sentence
// ---------------------------------------------------------------------------

/// A tag as a TOML basic string.
pub open spec fn quoted(t: Seq<char>) -> Seq<char> {
    seq!['"'] + escaped(t) + seq!['"']
}

/// The tags as the inside of a TOML array: quoted and comma-separated.
pub open spec fn tag_list(tags: Seq<Seq<char>>) -> Seq<char> {
    join(tags.map_values(|t: Seq<char>| quoted(t)), seq![',', ' '])
}

/// The `[[sentence]]` block that records a new sentence at the end of the
/// sentence file; the note line only when there is a note.
pub open spec fn sentence_block_spec(text: Seq<char>, tags: Seq<Seq<char>>, note: Seq<char>) -> Seq<
    char,
> {
    "\n[[sentence]]\ntext = \""@ + escaped(text) + "\"\ntags = ["@ + tag_list(tags) + "]\n"@ + if note.len()
        > 0 {
        "note = \""@ + escaped(note) + "\"\n"@
    } else {
        seq![]
    }
}

/// The `[[sentence]]` block for a new sentence, as appended to the sentence
/// file so that the rest of the file, comments included, stays untouched.
pub fn sentence_block(text: &str, tags: &Vec<String>, note: &str) -> (r: String)
    ensures
        r@ == sentence_block_spec(text@, views(tags@), note@),
{
    let mut r = String::new();
    push_str(&mut r, "\n[[sentence]]\ntext = \"");
    let ghost a = r@;
    assert(a == "\n[[sentence]]\ntext = \""@);
    push_escaped(&mut r, text);
    let ghost b = r@;
    push_str(&mut r, "\"\ntags = [");
    let ghost head = r@;
    let ghost qs = views(tags@).map_values(|t: Seq<char>| quoted(t));
    let n = tags.len();
    for i in 0..n
        invariant
            n == tags@.len(),
            qs == views(tags@).map_values(|t: Seq<char>| quoted(t)),
            r@ == head + join(qs.take(i as int), seq![',', ' ']),
    {
        let ghost before = r@;
        let ghost prefix = qs.take(i as int);
        assert(qs.take(i + 1).drop_last() == prefix);
        assert(qs.take(i + 1).last() == qs[i as int]);
        assert(qs[i as int] == quoted(tags@[i as int]@));
        if i > 0 {
            push_str(&mut r, ", ");
            proof { reveal_strlit(", "); }
        }
        let ghost mid = r@;
        push_char(&mut r, '"');
        push_escaped(&mut r, tags[i].as_str());
        push_char(&mut r, '"');
        assert(r@ == mid + qs[i as int]);
        if i == 0 {
            assert(qs.take(1) == seq![qs[0]]);
            assert(r@ == head + join(qs.take(i + 1), seq![',', ' ']));
        } else {
            assert(mid == head + join(prefix, seq![',', ' ']) + seq![',', ' ']);
            assert(r@ == head + (join(prefix, seq![',', ' ']) + seq![',', ' '] + qs[i as int]));
        }
    }
    assert(qs.take(n as int) == qs);
    let ghost list = r@;
    push_str(&mut r, "]\n");
    let ghost closed = r@;
    if !note.is_empty() {
        push_str(&mut r, "note = \"");
        push_escaped(&mut r, note);
        push_str(&mut r, "\"\n");
    }
    assert(list == head + tag_list(views(tags@)));
    let ghost note_part = if note@.len() > 0 {
        "note = \""@ + escaped(note@) + "\"\n"@
    } else {
        seq![]
    };
    assert(r@ =~= closed + note_part);
    assert(closed =~= "\n[[sentence]]\ntext = \""@ + escaped(text@) + "\"\ntags = ["@ + tag_list(
        views(tags@),
    ) + "]\n"@);
    r
}

// ---------------------------------------------------------------------------
// Practice statistics
// ---------------------------------------------------------------------------

/// One day's usage. `day` is a day number (days since the Unix epoch).
#[derive(Debug, Clone, Copy, PartialEq, Eq, Structural)]
pub struct DayStat {
    pub day: u64,
    pub sentences: u64,
    pub play_secs: u64,
}

impl Default for DayStat {
    fn default() -> (d: Self)
        ensures
            d == (DayStat { day: 0, sentences: 0, play_secs: 0 }),
    {
        DayStat { day: 0, sentences: 0, play_secs: 0 }
    }
}

/// Practice statistics. `last_active_day` is the day number of the last day
/// with practice, which the streak is kept against; `daily` is the per-day
/// history, oldest first, with days of no activity absent.
#[derive(Debug)]
pub struct Stats {
    pub sentences_spoken: u64,
    pub play_secs: u64,
    pub sessions: u64,
    pub days_practiced: u64,
    pub current_streak: u64,
    pub best_streak: u64,
    pub last_active_day: Option<u64>,
    pub daily: Vec<DayStat>,
}

impl Default for Stats {
    fn default() -> (s: Self)
        ensures
            s.sentences_spoken == 0,
            s.play_secs == 0,
            s.sessions == 0,
            s.days_practiced == 0,
            s.current_streak == 0,
            s.best_streak == 0,
            s.last_active_day is None,
            s.daily@.len() == 0,
    {
        Stats {
            sentences_spoken: 0,
            play_secs: 0,
            sessions: 0,
            days_practiced: 0,
            current_streak: 0,
            best_streak: 0,
            last_active_day: None,
            daily: Vec::new(),
        }
    }
}

/// A day with no activity recorded.
pub open spec fn zero_day(day: u64) -> DayStat {
    DayStat { day, sentences: 0, play_secs: 0 }
}

/// The history already has an entry for `today` as its latest.
pub open spec fn ends_on(daily: Seq<DayStat>, today: u64) -> bool {
    daily.len() > 0 && daily.last().day == today
}

/// The history with an entry for `today` at its end: as it is if the latest
/// entry is today's, else with a fresh zero entry appended.
pub open spec fn with_entry_for(daily: Seq<DayStat>, today: u64) -> Seq<DayStat> {
    if ends_on(daily, today) {
        daily
    } else {
        daily.push(zero_day(today))
    }
}

/// `today` directly follows the last active day.
pub open spec fn follows(last: Option<u64>, today: u64) -> bool {
    last matches Some(d) && d + 1 == today
}

/// The streak after practising on `today`.
pub open spec fn next_streak(s: Stats, today: u64) -> int {
    if follows(s.last_active_day, today) {
        s.current_streak + 1
    } else {
        1
    }
}

/// `new` is `old` after practice was registered on `today`: the same day
/// counts once; a new day bumps the day count, extends the streak when it
/// follows the last active day and restarts it at 1 otherwise, and raises
/// the best streak to the current one.
pub open spec fn touched(old: Stats, new: Stats, today: u64) -> bool {
    if old.last_active_day == Some(today) {
        new == old
    } else {
        let streak = next_streak(old, today);
        &&& new.current_streak == streak
        &&& new.days_practiced == old.days_practiced + 1
        &&& new.last_active_day == Some(today)
        &&& new.best_streak == (if old.best_streak >= streak {
            old.best_streak as int
        } else {
            streak
        })
        &&& new.sentences_spoken == old.sentences_spoken
        &&& new.play_secs == old.play_secs
        &&& new.sessions == old.sessions
        &&& new.daily@ == old.daily@
    }
}

/// `new` is `old` after one sentence was spoken on `today`: the total and
/// today's history entry each grow by one.
pub open spec fn recorded(old: Stats, new: Stats, today: u64) -> bool {
    let d = with_entry_for(old.daily@, today);
    let e = d.last();
    &&& new.sentences_spoken == old.sentences_spoken + 1
    &&& new.daily@ == d.update(
        d.len() - 1,
        DayStat { day: e.day, sentences: (e.sentences + 1) as u64, play_secs: e.play_secs },
    )
    &&& new.play_secs == old.play_secs
    &&& new.sessions == old.sessions
    &&& new.days_practiced == old.days_practiced
    &&& new.current_streak == old.current_streak
    &&& new.best_streak == old.best_streak
    &&& new.last_active_day == old.last_active_day
}

/// `new` is `old` after `secs` seconds were played on `today`: the total and
/// today's history entry each grow by `secs`; zero seconds change nothing.
pub open spec fn played(old: Stats, new: Stats, secs: u64, today: u64) -> bool {
    if secs == 0 {
        new == old
    } else {
        let d = with_entry_for(old.daily@, today);
        let e = d.last();
        &&& new.play_secs == old.play_secs + secs
        &&& new.daily@ == d.update(
            d.len() - 1,
            DayStat { day: e.day, sentences: e.sentences, play_secs: (e.play_secs + secs) as u64 },
        )
        &&& new.sentences_spoken == old.sentences_spoken
        &&& new.sessions == old.sessions
        &&& new.days_practiced == old.days_practiced
        &&& new.current_streak == old.current_streak
        &&& new.best_streak == old.best_streak
        &&& new.last_active_day == old.last_active_day
    }
}

/// The first history entry for `day`, if any.
pub open spec fn find_day(daily: Seq<DayStat>, day: u64) -> Option<DayStat>
    decreases daily.len(),
{
    if daily.len() == 0 {
        None
    } else if daily[0].day == day {
        Some(daily[0])
    } else {
        find_day(daily.drop_first(), day)
    }
}

/// The usage on `day`: its first history entry, or zeros when it has none.
pub open spec fn day_summary(daily: Seq<DayStat>, day: u64) -> DayStat {
    match find_day(daily, day) {
        Some(e) => e,
        None => zero_day(day),
    }
}

/// The first day of the window of the last `n` days up to `today` (`n` is
/// taken as at least 1; the window stops at day 0).
pub open spec fn window_start(n: u64, today: u64) -> u64 {
    let k = if n >= 1 {
        n
    } else {
        1
    };
    if today >= k - 1 {
        (today - (k - 1)) as u64
    } else {
        0
    }
}

/// The usage of each day from `window_start(n, today)` to `today`, oldest
/// first, with days of no activity filled in as zeros.
pub open spec fn recent_window(daily: Seq<DayStat>, n: u64, today: u64) -> Seq<DayStat> {
    let s = window_start(n, today);
    Seq::new((today - s + 1) as nat, |j: int| day_summary(daily, (s + j) as u64))
}

impl Stats {
    /// Registers practice on day `today`: the day count grows once per day,
    /// the streak grows when `today` directly follows the last active day and
    /// restarts at 1 otherwise, and the best streak follows the current one.
    /// A second call on the same day changes nothing.
    pub fn touch_today_on(&mut self, today: u64)
        requires
            old(self).last_active_day != Some(today) ==> old(self).days_practiced < u64::MAX,
            follows(old(self).last_active_day, today) ==> old(self).current_streak < u64::MAX,
        ensures
            touched(*old(self), *final(self), today),
    {
        match self.last_active_day {
            Some(d) => {
                if d == today {
                    return;
                } else if d < today && today - d == 1 {
                    self.current_streak = self.current_streak + 1;
                } else {
                    self.current_streak = 1;
                }
            },
            None => {
                self.current_streak = 1;
            },
        }
        self.days_practiced = self.days_practiced + 1;
        self.last_active_day = Some(today);
        if self.current_streak > self.best_streak {
            self.best_streak = self.current_streak;
        }
    }

    /// Registers that the user practised today (by the system clock); see
    /// `touch_today_on`.
    pub fn touch_today(&mut self)
        requires
            old(self).days_practiced < u64::MAX,
            old(self).current_streak < u64::MAX,
        ensures
            exists|today: u64| touched(*old(self), *final(self), today),
    {
        let today = today_number();
        self.touch_today_on(today);
    }

    /// Makes sure the history ends with an entry for `today` and returns its
    /// position.
    pub fn today_entry(&mut self, today: u64) -> (i: usize)
        ensures
            final(self).daily@ == with_entry_for(old(self).daily@, today),
            i == final(self).daily@.len() - 1,
            *final(self) == (Stats { daily: final(self).daily, ..*old(self) }),
    {
        let n = self.daily.len();
        if n == 0 || self.daily[n - 1].day != today {
            self.daily.push(DayStat { day: today, sentences: 0, play_secs: 0 });
        }
        self.daily.len() - 1
    }

    /// Counts one spoken sentence on day `today`, in the total and in that
    /// day's history entry.
    pub fn record_sentence_on(&mut self, today: u64)
        requires
            old(self).sentences_spoken < u64::MAX,
            ends_on(old(self).daily@, today) ==> old(self).daily@.last().sentences < u64::MAX,
        ensures
            recorded(*old(self), *final(self), today),
    {
        self.sentences_spoken = self.sentences_spoken + 1;
        let i = self.today_entry(today);
        let e = self.daily[i];
        self.daily.set(i, DayStat { day: e.day, sentences: e.sentences + 1, play_secs: e.play_secs });
    }

    /// Counts one spoken sentence today (by the system clock); see
    /// `record_sentence_on`.
    pub fn record_sentence(&mut self)
        requires
            old(self).sentences_spoken < u64::MAX,
            old(self).daily@.len() > 0 ==> old(self).daily@.last().sentences < u64::MAX,
        ensures
            exists|today: u64| recorded(*old(self), *final(self), today),
    {
        let today = today_number();
        self.record_sentence_on(today);
    }

    /// Adds `secs` played seconds on day `today`, to the total and to that
    /// day's history entry. Zero seconds change nothing.
    pub fn add_play_secs_on(&mut self, secs: u64, today: u64)
        requires
            old(self).play_secs + secs <= u64::MAX,
            ends_on(old(self).daily@, today) ==> old(self).daily@.last().play_secs + secs
                <= u64::MAX,
        ensures
            played(*old(self), *final(self), secs, today),
    {
        if secs == 0 {
            return;
        }
        self.play_secs = self.play_secs + secs;
        let i = self.today_entry(today);
        let e = self.daily[i];
        self.daily.set(i, DayStat { day: e.day, sentences: e.sentences, play_secs: e.play_secs + secs });
    }

    /// Adds played seconds today (by the system clock); see
    /// `add_play_secs_on`.
    pub fn add_play_secs(&mut self, secs: u64)
        requires
            old(self).play_secs + secs <= u64::MAX,
            old(self).daily@.len() > 0 ==> old(self).daily@.last().play_secs + secs <= u64::MAX,
        ensures
            exists|today: u64| played(*old(self), *final(self), secs, today),
    {
        let today = today_number();
        self.add_play_secs_on(secs, today);
    }

    /// The usage on `day`: its first history entry, or zeros.
    fn summary_of(&self, day: u64) -> (r: DayStat)
        ensures
            r == day_summary(self.daily@, day),
    {
        let n = self.daily.len();
        let mut i: usize = 0;
        assert(self.daily@.skip(0) == self.daily@);
        while i < n
            invariant
                i <= n == self.daily@.len(),
                find_day(self.daily@, day) == find_day(self.daily@.skip(i as int), day),
            decreases n - i,
        {
            if self.daily[i].day == day {
                return self.daily[i];
            }
            assert(self.daily@.skip(i as int).drop_first() == self.daily@.skip(i + 1));
            i += 1;
        }
        DayStat { day, sentences: 0, play_secs: 0 }
    }

    /// The last `n` calendar days up to day `today`, oldest first, with days
    /// of no activity filled in as zeros. `n` is taken as at least 1.
    pub fn recent_days_on(&self, n: u64, today: u64) -> (r: Vec<DayStat>)
        ensures
            r@ == recent_window(self.daily@, n, today),
    {
        let k = if n >= 1 {
            n
        } else {
            1
        };
        let start = if today >= k - 1 {
            today - (k - 1)
        } else {
            0
        };
        assert(start == window_start(n, today));
        let mut out: Vec<DayStat> = Vec::new();
        let mut day = start;
        loop
            invariant_except_break
                start == window_start(n, today),
                start <= day <= today,
                out@.len() == day - start,
                forall|j: int|
                    0 <= j < out@.len() ==> out@[j] == day_summary(
                        self.daily@,
                        (start + j) as u64,
                    ),
            ensures
                out@ == recent_window(self.daily@, n, today),
            decreases today - day,
        {
            out.push(self.summary_of(day));
            if day == today {
                assert(out@ =~= recent_window(self.daily@, n, today));
                break;
            }
            day = day + 1;
        }
        out
    }

    /// The last `n` calendar days up to today (by the system clock); see
    /// `recent_days_on`.
    pub fn recent_days(&self, n: u64) -> (r: Vec<DayStat>)
        ensures
            exists|today: u64| r@ == recent_window(self.daily@, n, today),
    {
        let today = today_number();
        self.recent_days_on(n, today)
    }
}


// ---------------------------------------------------------------------------
// Laws
// ---------------------------------------------------------------------------

/// Registering practice twice on the same day counts it once.
pub proof fn lemma_touch_same_day_once(a: Stats, b: Stats, c: Stats, today: u64)
    requires
        touched(a, b, today),
        touched(b, c, today),
    ensures
        c == b,
{
}

/// After practice is registered the best streak is at least the current
/// one, the best streak never goes down, and a new day leaves a streak of
/// at least 1.
pub proof fn lemma_touch_streaks(a: Stats, b: Stats, today: u64)
    requires
        touched(a, b, today),
    ensures
        b.best_streak >= a.best_streak,
        a.last_active_day != Some(today) ==> b.best_streak >= b.current_streak
            && b.current_streak >= 1,
        b.last_active_day == Some(today),
{
}

/// The history's days strictly increase.
pub open spec fn days_ascending(daily: Seq<DayStat>) -> bool {
    forall|i: int, j: int| 0 <= i < j < daily.len() ==> daily[i].day < daily[j].day
}

/// No history entry lies after `today`.
pub open spec fn none_after(daily: Seq<DayStat>, today: u64) -> bool {
    daily.len() > 0 ==> daily.last().day <= today
}

/// Making room for today's entry keeps the history in day order and ends
/// it on today.
proof fn lemma_entry_for_ascending(daily: Seq<DayStat>, today: u64)
    requires
        days_ascending(daily),
        none_after(daily, today),
    ensures
        days_ascending(with_entry_for(daily, today)),
        with_entry_for(daily, today).last().day == today,
        with_entry_for(daily, today).len() > 0,
{
    if !ends_on(daily, today) {
        let d = daily.push(zero_day(today));
        assert forall|i: int, j: int| 0 <= i < j < d.len() implies d[i].day < d[j].day by {
            if j == d.len() - 1 && i < daily.len() - 1 {
                assert(daily[i].day < daily[daily.len() - 1].day);
            }
        }
    }
}

/// Counting a spoken sentence keeps the history in day order, as time only
/// moves forward, and leaves today's entry last.
pub proof fn lemma_record_keeps_order(a: Stats, b: Stats, today: u64)
    requires
        recorded(a, b, today),
        days_ascending(a.daily@),
        none_after(a.daily@, today),
    ensures
        days_ascending(b.daily@),
        b.daily@.last().day == today,
{
    lemma_entry_for_ascending(a.daily@, today);
}

/// Adding played seconds keeps the history in day order, as time only moves
/// forward, and leaves today's entry last unless nothing was added.
pub proof fn lemma_play_keeps_order(a: Stats, b: Stats, secs: u64, today: u64)
    requires
        played(a, b, secs, today),
        days_ascending(a.daily@),
        none_after(a.daily@, today),
    ensures
        days_ascending(b.daily@),
        secs > 0 ==> b.daily@.last().day == today,
{
    lemma_entry_for_ascending(a.daily@, today);
}

/// The entry found for a day is that day's.
proof fn lemma_find_day(daily: Seq<DayStat>, day: u64)
    ensures
        find_day(daily, day) matches Some(e) ==> e.day == day,
    decreases daily.len(),
{
    if daily.len() > 0 && daily[0].day != day {
        lemma_find_day(daily.drop_first(), day);
    }
}

/// The recent-days window runs over consecutive days up to today, oldest
/// first, is `n` days long (at least 1) unless it reaches back to day 0, and
/// shows zeros for days with no history.
pub proof fn lemma_recent_window(daily: Seq<DayStat>, n: u64, today: u64)
    ensures
        ({
            let w = recent_window(daily, n, today);
            let k: int = if n >= 1 {
                n as int
            } else {
                1
            };
            &&& today >= k - 1 ==> w.len() == k
            &&& today < k - 1 ==> w.len() == today + 1
            &&& w.last().day == today
            &&& forall|j: int|
                0 <= j < w.len() ==> (#[trigger] w[j]).day == window_start(n, today) + j
            &&& forall|j: int|
                0 <= j < w.len() && find_day(daily, (window_start(n, today) + j) as u64) is None
                    ==> #[trigger] w[j] == zero_day((window_start(n, today) + j) as u64)
        }),
{
    let w = recent_window(daily, n, today);
    let s = window_start(n, today);
    assert forall|j: int| 0 <= j < w.len() implies (#[trigger] w[j]).day == s + j by {
        lemma_find_day(daily, (s + j) as u64);
    }
    assert(w[w.len() - 1].day == today);
}


/// The sentences counted over the whole history.
pub open spec fn history_sentences(d: Seq<DayStat>) -> int
    decreases d.len(),
{
    if d.len() == 0 {
        0
    } else {
        history_sentences(d.drop_last()) + d.last().sentences
    }
}

/// The seconds played over the whole history.
pub open spec fn history_play_secs(d: Seq<DayStat>) -> int
    decreases d.len(),
{
    if d.len() == 0 {
        0
    } else {
        history_play_secs(d.drop_last()) + d.last().play_secs
    }
}

/// Making room for today's entry adds nothing to the history's sums.
proof fn lemma_entry_for_sums(daily: Seq<DayStat>, today: u64)
    ensures
        history_sentences(with_entry_for(daily, today)) == history_sentences(daily),
        history_play_secs(with_entry_for(daily, today)) == history_play_secs(daily),
        with_entry_for(daily, today).len() > 0,
{
    if !ends_on(daily, today) {
        assert(daily.push(zero_day(today)).drop_last() == daily);
    }
}

/// Counting a spoken sentence grows the total and the history by the same
/// amount: the total minus the history's sum stays as it was, for the
/// sentences and for the seconds played (today's count not at its limit,
/// as `record_sentence_on` requires).
pub proof fn lemma_record_keeps_balance(a: Stats, b: Stats, today: u64)
    requires
        recorded(a, b, today),
        ends_on(a.daily@, today) ==> a.daily@.last().sentences < u64::MAX,
    ensures
        b.sentences_spoken - history_sentences(b.daily@) == a.sentences_spoken
            - history_sentences(a.daily@),
        b.play_secs - history_play_secs(b.daily@) == a.play_secs - history_play_secs(a.daily@),
{
    let d = with_entry_for(a.daily@, today);
    lemma_entry_for_sums(a.daily@, today);
    let e = d.last();
    let n = DayStat { day: e.day, sentences: (e.sentences + 1) as u64, play_secs: e.play_secs };
    assert(b.daily@.drop_last() == d.drop_last());
    assert(b.daily@.last() == n);
}

/// Adding played seconds grows the total and the history by the same
/// amount: the total minus the history's sum stays as it was, for the
/// seconds played and for the sentences (today's seconds not overflowing,
/// as `add_play_secs_on` requires).
pub proof fn lemma_play_keeps_balance(a: Stats, b: Stats, secs: u64, today: u64)
    requires
        played(a, b, secs, today),
        ends_on(a.daily@, today) ==> a.daily@.last().play_secs + secs <= u64::MAX,
    ensures
        b.play_secs - history_play_secs(b.daily@) == a.play_secs - history_play_secs(a.daily@),
        b.sentences_spoken - history_sentences(b.daily@) == a.sentences_spoken
            - history_sentences(a.daily@),
{
    if secs > 0 {
        let d = with_entry_for(a.daily@, today);
        lemma_entry_for_sums(a.daily@, today);
        let e = d.last();
        let n = DayStat { day: e.day, sentences: e.sentences, play_secs: (e.play_secs + secs) as u64 };
        assert(b.daily@.drop_last() == d.drop_last());
        assert(b.daily@.last() == n);
    }
}


/// A tag is written as a TOML basic string that reads back as the tag.
pub proof fn lemma_quoted_reads_back(t: Seq<char>)
    ensures
        exists|q: Seq<char>|
            quoted(t) == seq!['"'] + q + seq!['"'] && basic_string_body(q) && #[trigger] unescaped(q)
                == t,
{
    lemma_escaped_reads_back(t);
    assert(unescaped(escaped(t)) == t);
}

/// The block appended for a new sentence writes its text, and its note when
/// there is one, as TOML basic strings that read back as the text and the
/// note; each tag is written as `quoted` shows.
pub proof fn lemma_block_reads_back(text: Seq<char>, tags: Seq<Seq<char>>, note: Seq<char>)
    ensures
        exists|q: Seq<char>|
            ("\n[[sentence]]\ntext = \""@ + q + "\"\ntags = ["@).is_prefix_of(
                sentence_block_spec(text, tags, note),
            ) && basic_string_body(q) && #[trigger] unescaped(q) == text,
        note.len() > 0 ==> exists|q: Seq<char>|
            ("note = \""@ + q + "\"\n"@).is_suffix_of(sentence_block_spec(text, tags, note))
                && basic_string_body(q) && #[trigger] unescaped(q) == note,
{
    let b = sentence_block_spec(text, tags, note);
    lemma_escaped_reads_back(text);
    lemma_escaped_reads_back(note);
    let lit1 = "\n[[sentence]]\ntext = \""@;
    let lit2 = "\"\ntags = ["@;
    let rest = tag_list(tags) + "]\n"@ + if note.len() > 0 {
        "note = \""@ + escaped(note) + "\"\n"@
    } else {
        seq![]
    };
    assert(b =~= lit1 + escaped(text) + lit2 + rest);
    assert((lit1 + escaped(text) + lit2).is_prefix_of(b)) by {
        assert(b.subrange(0, (lit1 + escaped(text) + lit2).len() as int) =~= lit1 + escaped(text) + lit2);
    }
    assert(unescaped(escaped(text)) == text);
    if note.len() > 0 {
        let head = lit1 + escaped(text) + lit2 + tag_list(tags) + "]\n"@;
        let tail = "note = \""@ + escaped(note) + "\"\n"@;
        assert(b =~= head + tail);
        assert(tail.is_suffix_of(b)) by {
            assert(b.subrange(b.len() - tail.len(), b.len() as int) =~= tail);
        }
        assert(unescaped(escaped(note)) == note);
    }
}

} // verus!
