use say2::clock::{day_of_secs, today_number};
use say2::sentence::{is_false, sentence_block, DayStat, Layout, Settings, Stats};
use say2::text::toml_escape;

#[test]
fn escapes_quotes_and_backslashes() {
    assert_eq!(toml_escape(r#"a"b\c"#), r#"a\"b\\c"#);
    assert_eq!(toml_escape("plain"), "plain");
}

#[test]
fn touch_today_starts_a_streak_and_is_idempotent_within_a_day() {
    let mut stats = Stats::default();
    stats.touch_today();
    assert_eq!(stats.days_practiced, 1);
    assert_eq!(stats.current_streak, 1);
    assert_eq!(stats.best_streak, 1);

    // A second call the same day must not double-count.
    stats.touch_today();
    assert_eq!(stats.days_practiced, 1);
    assert_eq!(stats.current_streak, 1);
}

#[test]
fn touch_today_extends_streak_on_consecutive_day_and_resets_after_a_gap() {
    let today = today_number();

    // Yesterday was the last active day: today extends the streak.
    let mut stats = Stats {
        current_streak: 3,
        best_streak: 3,
        days_practiced: 3,
        last_active_day: Some(today - 1),
        ..Stats::default()
    };
    stats.touch_today();
    assert_eq!(stats.current_streak, 4);
    assert_eq!(stats.best_streak, 4);
    assert_eq!(stats.days_practiced, 4);

    // A two-day gap resets the streak to 1 (best is preserved).
    let mut stats = Stats {
        current_streak: 5,
        best_streak: 9,
        days_practiced: 20,
        last_active_day: Some(today - 2),
        ..Stats::default()
    };
    stats.touch_today();
    assert_eq!(stats.current_streak, 1);
    assert_eq!(stats.best_streak, 9);
    assert_eq!(stats.days_practiced, 21);
}

#[test]
fn recording_usage_updates_totals_and_todays_history() {
    let mut stats = Stats::default();
    stats.record_sentence();
    stats.record_sentence();
    stats.add_play_secs(90);
    stats.add_play_secs(0); // ignored

    assert_eq!(stats.sentences_spoken, 2);
    assert_eq!(stats.play_secs, 90);
    // A single history entry for today carries the same figures.
    assert_eq!(stats.daily.len(), 1);
    assert_eq!(stats.daily[0].day, today_number());
    assert_eq!(stats.daily[0].sentences, 2);
    assert_eq!(stats.daily[0].play_secs, 90);
}

#[test]
fn recent_days_fills_gaps_and_keeps_order() {
    let today = today_number();
    let stats = Stats {
        daily: vec![
            DayStat {
                day: today - 3,
                sentences: 5,
                play_secs: 60,
            },
            DayStat {
                day: today,
                sentences: 2,
                play_secs: 30,
            },
        ],
        ..Stats::default()
    };

    let window = stats.recent_days(4); // today-3 .. today
    assert_eq!(window.len(), 4);
    assert_eq!(window[0].day, today - 3);
    assert_eq!(window[0].sentences, 5);
    // The missing middle days are filled with zeros.
    assert_eq!(window[1].sentences, 0);
    assert_eq!(window[2].sentences, 0);
    assert_eq!(window[3].day, today);
    assert_eq!(window[3].sentences, 2);
}

#[test]
fn today_is_read_from_the_clock() {
    // Any day after 2023-01-01 (day 19358) and well before the year 3000.
    let today = today_number();
    assert!(today > 19_358);
    assert!(today < 376_000);
}

#[test]
fn touch_on_fixed_days_follows_the_streak_rules() {
    let mut stats = Stats::default();
    stats.touch_today_on(100);
    assert_eq!((stats.days_practiced, stats.current_streak, stats.best_streak), (1, 1, 1));
    assert_eq!(stats.last_active_day, Some(100));
    stats.touch_today_on(100);
    assert_eq!((stats.days_practiced, stats.current_streak, stats.best_streak), (1, 1, 1));
    stats.touch_today_on(101);
    stats.touch_today_on(102);
    assert_eq!((stats.days_practiced, stats.current_streak, stats.best_streak), (3, 3, 3));
    stats.touch_today_on(110);
    assert_eq!((stats.days_practiced, stats.current_streak, stats.best_streak), (4, 1, 3));
    assert_eq!(stats.last_active_day, Some(110));
}

#[test]
fn history_entries_are_appended_per_day_in_order() {
    let mut stats = Stats::default();
    stats.record_sentence_on(7);
    stats.add_play_secs_on(30, 7);
    stats.record_sentence_on(9);
    stats.add_play_secs_on(5, 9);
    stats.add_play_secs_on(0, 12);
    assert_eq!(
        stats.daily,
        vec![
            DayStat { day: 7, sentences: 1, play_secs: 30 },
            DayStat { day: 9, sentences: 1, play_secs: 5 },
        ]
    );
    assert_eq!(stats.sentences_spoken, 2);
    assert_eq!(stats.play_secs, 35);
}

#[test]
fn recent_days_window_edges() {
    let stats = Stats {
        daily: vec![
            DayStat { day: 1, sentences: 4, play_secs: 8 },
            DayStat { day: 1, sentences: 9, play_secs: 9 },
        ],
        ..Stats::default()
    };
    // n = 0 is taken as 1: just today.
    let w = stats.recent_days_on(0, 5);
    assert_eq!(w, vec![DayStat { day: 5, sentences: 0, play_secs: 0 }]);
    // The window stops at day 0; the first entry of a day is used.
    let w = stats.recent_days_on(10, 2);
    assert_eq!(w.len(), 3);
    assert_eq!(w[0], DayStat { day: 0, sentences: 0, play_secs: 0 });
    assert_eq!(w[1], DayStat { day: 1, sentences: 4, play_secs: 8 });
    assert_eq!(w[2].day, 2);
}

#[test]
fn settings_default_and_is_false() {
    let s = Settings::default();
    assert!(s.is_default());
    let s = Settings { layout: Some(Layout::Stacked), ..Settings::default() };
    assert!(!s.is_default());
    assert!(is_false(&false));
    assert!(!is_false(&true));
}

#[test]
fn appended_block_quotes_and_escapes() {
    let tags = vec!["greet\"ings".to_string(), "a\\b".to_string()];
    let block = sentence_block("Say \"hi\"", &tags, "");
    assert_eq!(
        block,
        "\n[[sentence]]\ntext = \"Say \\\"hi\\\"\"\ntags = [\"greet\\\"ings\", \"a\\\\b\"]\n"
    );
    let block = sentence_block("Hi", &Vec::new(), "a note");
    assert_eq!(block, "\n[[sentence]]\ntext = \"Hi\"\ntags = []\nnote = \"a note\"\n");
}

#[test]
fn todays_entry_is_reused_or_appended() {
    let mut stats = Stats::default();
    assert_eq!(stats.today_entry(3), 0);
    assert_eq!(stats.today_entry(3), 0);
    assert_eq!(stats.today_entry(4), 1);
    assert_eq!(stats.daily.len(), 2);
    assert_eq!(stats.daily[1], DayStat { day: 4, sentences: 0, play_secs: 0 });
}

#[test]
fn day_numbers_from_clock_readings() {
    assert_eq!(day_of_secs(None), 0);
    assert_eq!(day_of_secs(Some(0)), 0);
    assert_eq!(day_of_secs(Some(86_399)), 0);
    assert_eq!(day_of_secs(Some(86_400)), 1);
    assert_eq!(day_of_secs(Some(1_725_029_869)), 19_965);
}

#[test]
fn totals_and_history_grow_together() {
    let mut stats = Stats {
        sentences_spoken: 10,
        play_secs: 100,
        daily: vec![DayStat { day: 1, sentences: 3, play_secs: 40 }],
        ..Stats::default()
    };
    let balance = |s: &Stats| {
        (
            s.sentences_spoken - s.daily.iter().map(|d| d.sentences).sum::<u64>(),
            s.play_secs - s.daily.iter().map(|d| d.play_secs).sum::<u64>(),
        )
    };
    let before = balance(&stats);
    stats.record_sentence_on(1);
    stats.record_sentence_on(2);
    stats.add_play_secs_on(15, 2);
    stats.add_play_secs_on(0, 3);
    assert_eq!(balance(&stats), before);
}
