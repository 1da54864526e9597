use say2::app::{App, Effect, Key, Mode, PauseStep, pause_step};
use say2::sentence::{Config, Sentence, Settings};
use say2::ui::footer_hints;

fn sentence(text: &str, tags: &[&str]) -> Sentence {
    Sentence {
        text: text.to_string(),
        tags: tags.iter().map(|t| t.to_string()).collect(),
        note: String::new(),
        starred: false,
    }
}

fn app_with(sentences: Vec<Sentence>) -> App {
    App::new(Config {
        settings: Settings::default(),
        sentences,
    })
}

#[test]
fn empty_filter_matches_everything() {
    let app = app_with(vec![sentence("Hello", &["a"]), sentence("World", &["b"])]);
    assert_eq!(app.matches(), vec![0, 1]);
}

#[test]
fn filter_matches_text_and_tags_case_insensitively() {
    let mut app = app_with(vec![
        sentence("She left early.", &["past", "work"]),
        sentence("How are you?", &["questions"]),
    ]);

    // Matches a tag.
    app.filter = "PAST".to_string();
    assert_eq!(app.matches(), vec![0]);

    // Matches the sentence text.
    app.filter = "how".to_string();
    assert_eq!(app.matches(), vec![1]);

    // No match.
    app.filter = "zzz".to_string();
    assert!(app.matches().is_empty());
}

#[test]
fn starred_sentences_are_weighted_in_the_playlist() {
    let mut starred = sentence("Hard one", &[]);
    starred.starred = true;
    let mut app = app_with(vec![sentence("Easy one", &[]), starred]);

    app.reshuffle();

    // Index 1 (starred) appears 3x, index 0 once -> 4 entries total.
    assert_eq!(app.playlist.len(), 4);
    assert_eq!(app.playlist.iter().filter(|&&i| i == 0).count(), 1);
    assert_eq!(app.playlist.iter().filter(|&&i| i == 1).count(), 3);
}

#[test]
fn star_weight_is_configurable() {
    let mut starred = sentence("Hard one", &[]);
    starred.starred = true;
    let mut app = App::new(Config {
        settings: Settings {
            star_weight: Some(5),
            ..Settings::default()
        },
        sentences: vec![sentence("Easy one", &[]), starred],
    });

    app.reshuffle();

    assert_eq!(app.playlist.iter().filter(|&&i| i == 1).count(), 5);
}

#[test]
fn star_weight_zero_still_keeps_starred_sentences() {
    let mut starred = sentence("Hard one", &[]);
    starred.starred = true;
    let mut app = App::new(Config {
        settings: Settings { star_weight: Some(0), ..Settings::default() },
        sentences: vec![starred],
    });
    app.reshuffle();
    assert_eq!(app.playlist, vec![0]);
    assert_eq!(app.play_pos, 0);
}

#[test]
fn reshuffle_changes_the_order_sometimes() {
    let sentences: Vec<Sentence> = (0..12).map(|i| sentence(&format!("s{i}"), &[])).collect();
    let mut app = app_with(sentences);
    let sorted: Vec<usize> = (0..12).collect();
    let mut moved = false;
    for _ in 0..20 {
        app.reshuffle();
        let mut copy = app.playlist.clone();
        copy.sort();
        assert_eq!(copy, sorted);
        if app.playlist != sorted {
            moved = true;
        }
    }
    assert!(moved);
}

#[test]
fn navigation_wraps_within_the_filtered_list() {
    let mut app = app_with(vec![sentence("a", &[]), sentence("b", &[]), sentence("c", &[])]);
    app.previous();
    assert_eq!(app.selected, 2);
    app.next();
    assert_eq!(app.selected, 0);
    app.next();
    assert_eq!(app.selected, 1);
    let mut empty = app_with(vec![]);
    empty.next();
    empty.previous();
    assert_eq!(empty.selected, 0);
}

#[test]
fn adding_a_sentence_goes_through_the_three_fields() {
    let mut app = app_with(vec![sentence("Hi", &[])]);
    assert!(matches!(app.handle_key(Key::Char('a')), Effect::Nothing));
    assert_eq!(app.mode, Mode::Add);
    // A blank phrase does not move on.
    app.handle_key(Key::Char(' '));
    app.handle_key(Key::Enter);
    assert_eq!(app.add_field, 0);
    for c in "Good day ".chars() {
        app.handle_key(Key::Char(c));
    }
    app.handle_key(Key::Enter);
    for c in "#greet  smalltalk".chars() {
        app.handle_key(Key::Char(c));
    }
    app.handle_key(Key::Enter);
    for c in " polite x".chars() {
        app.handle_key(Key::Char(c));
    }
    app.handle_key(Key::Backspace);
    app.handle_key(Key::Backspace);
    match app.handle_key(Key::Enter) {
        Effect::Append(s) => {
            assert_eq!(s.text, "Good day");
            assert_eq!(s.tags, vec!["greet", "smalltalk"]);
            assert_eq!(s.note, "polite");
            assert!(!s.starred);
            app.finish_add(true);
        }
        other => panic!("expected an append, got {other:?}"),
    }
    assert_eq!(app.mode, Mode::Normal);
    assert_eq!(app.sentences.len(), 2);
    assert_eq!(app.sentences[1].text, "Good day");
    assert_eq!(app.add_text, "");
}

#[test]
fn a_failed_append_keeps_nothing() {
    let mut app = app_with(vec![]);
    app.start_add();
    app.add_char('x');
    app.add_enter();
    app.add_enter();
    let e = app.add_enter();
    assert!(matches!(e, Effect::Append(_)));
    app.finish_add(false);
    assert!(app.sentences.is_empty());
    assert_eq!(app.mode, Mode::Normal);
}

#[test]
fn editing_replaces_the_sentence_and_keeps_its_star() {
    let mut s = sentence("Old text", &["one", "two"]);
    s.starred = true;
    s.note = "n".to_string();
    let mut app = app_with(vec![sentence("first", &[]), s]);
    app.next();
    app.start_edit();
    assert_eq!(app.add_text, "Old text");
    assert_eq!(app.add_tags, "one two");
    assert_eq!(app.add_note, "n");
    assert_eq!(app.editing, Some(1));
    app.add_enter();
    app.add_char('!');
    app.add_enter();
    let e = app.add_enter();
    assert!(matches!(e, Effect::SaveAll));
    assert_eq!(app.sentences[1].text, "Old text");
    assert_eq!(app.sentences[1].tags, vec!["one", "two!"]);
    assert!(app.sentences[1].starred);
    assert_eq!(app.editing, None);
    assert_eq!(app.mode, Mode::Normal);
}

#[test]
fn editing_untouched_keeps_the_sentence() {
    let mut app = app_with(vec![sentence("Keep me", &["a", "b"])]);
    app.start_edit();
    app.add_enter();
    app.add_enter();
    assert!(matches!(app.add_enter(), Effect::SaveAll));
    assert_eq!(app.sentences[0].text, "Keep me");
    assert_eq!(app.sentences[0].tags, vec!["a", "b"]);
}

#[test]
fn deleting_asks_first_and_clamps_the_selection() {
    let mut app = app_with(vec![sentence("a", &[]), sentence("b", &[])]);
    app.next();
    app.handle_key(Key::Char('d'));
    assert_eq!(app.mode, Mode::ConfirmDelete);
    app.handle_key(Key::Char('n'));
    assert_eq!(app.mode, Mode::Normal);
    app.handle_key(Key::Char('d'));
    assert!(matches!(app.handle_key(Key::Char('y')), Effect::SaveAll));
    assert_eq!(app.sentences.len(), 1);
    assert_eq!(app.sentences[0].text, "a");
    assert_eq!(app.selected, 0);
    assert_eq!(app.mode, Mode::Normal);
}

#[test]
fn nothing_selected_means_no_delete_edit_or_star() {
    let mut app = app_with(vec![sentence("a", &[])]);
    app.filter = "zzz".to_string();
    app.start_delete();
    assert_eq!(app.mode, Mode::Normal);
    app.start_edit();
    assert_eq!(app.mode, Mode::Normal);
    assert!(matches!(app.toggle_star(), Effect::Nothing));
    assert!(app.selected_sentence().is_none());
    assert!(app.selected_text().is_none());
    assert!(matches!(app.confirm_delete(), Effect::Nothing));
    assert_eq!(app.sentences.len(), 1);
}

#[test]
fn toggling_the_star_flips_it() {
    let mut app = app_with(vec![sentence("a", &[])]);
    assert!(matches!(app.toggle_star(), Effect::SaveAll));
    assert!(app.sentences[0].starred);
    app.toggle_star();
    assert!(!app.sentences[0].starred);
    assert_eq!(app.selected_text().as_deref(), Some("a"));
}

#[test]
fn settings_screen_round_trips_and_parses() {
    let mut app = App::new(Config {
        settings: Settings {
            voice: Some("Daniel".to_string()),
            rate: Some(150),
            star_weight: None,
            layout: None,
        },
        sentences: vec![],
    });
    app.handle_key(Key::Char('s'));
    assert_eq!(app.mode, Mode::Settings);
    assert_eq!(app.set_voice, "Daniel");
    assert_eq!(app.set_rate, "150");
    assert_eq!(app.set_star_weight, "");
    app.handle_key(Key::Enter);
    // Numeric fields accept digits only.
    app.handle_key(Key::Char('x'));
    app.handle_key(Key::Backspace);
    app.handle_key(Key::Char('9'));
    assert_eq!(app.set_rate, "159");
    app.handle_key(Key::Enter);
    app.handle_key(Key::Char('4'));
    assert!(matches!(app.handle_key(Key::Enter), Effect::SaveAll));
    assert_eq!(app.mode, Mode::Normal);
    assert_eq!(app.settings.voice.as_deref(), Some("Daniel"));
    assert_eq!(app.settings.rate, Some(159));
    assert_eq!(app.settings.star_weight, Some(4));
}

#[test]
fn emptied_settings_fields_unset_the_setting() {
    let mut app = App::new(Config {
        settings: Settings { voice: Some("V".to_string()), rate: Some(9), ..Settings::default() },
        sentences: vec![],
    });
    app.start_settings();
    app.settings_backspace();
    app.settings_char(' ');
    app.settings_enter();
    app.settings_backspace();
    app.settings_enter();
    app.settings_enter();
    assert_eq!(app.settings.voice, None);
    assert_eq!(app.settings.rate, None);
    app.start_settings();
    app.cancel_settings();
    assert_eq!(app.mode, Mode::Normal);
}

#[test]
fn rate_steps_are_clamped() {
    let mut app = app_with(vec![]);
    assert_eq!(app.rate_wpm(), 175);
    assert!(matches!(app.handle_key(Key::Char('>')), Effect::SaveAll));
    assert_eq!(app.rate_wpm(), 185);
    app.adjust_rate(-20);
    assert_eq!(app.rate_wpm(), 80);
    app.adjust_rate(100);
    assert_eq!(app.rate_wpm(), 400);
    app.settings.rate = Some(u32::MAX);
    // As an i32 this is -1, so any small step lands on the minimum.
    app.adjust_rate(1);
    assert_eq!(app.rate_wpm(), 80);
}

#[test]
fn search_mode_edits_the_filter() {
    let mut app = app_with(vec![sentence("abc", &[]), sentence("xyz", &[])]);
    app.handle_key(Key::Char('/'));
    assert_eq!(app.mode, Mode::Search);
    app.handle_key(Key::Char('X'));
    app.handle_key(Key::Char('q'));
    app.handle_key(Key::Backspace);
    assert_eq!(app.filter, "X");
    assert_eq!(app.matches(), vec![1]);
    app.handle_key(Key::Enter);
    assert_eq!(app.mode, Mode::Normal);
    app.handle_key(Key::Char('/'));
    app.handle_key(Key::Esc);
    assert_eq!(app.filter, "");
    assert_eq!(app.mode, Mode::Normal);
}

#[test]
fn speaking_builds_the_command_arguments() {
    let mut app = App::new(Config {
        settings: Settings { voice: Some("Daniel".to_string()), rate: Some(170), ..Settings::default() },
        sentences: vec![sentence("Hello there", &[])],
    });
    match app.handle_key(Key::Char('p')) {
        Effect::Say(args) => assert_eq!(
            args,
            vec!["-v", "Daniel", "-r", "170", "Hello there [[slnc 700]]"]
        ),
        other => panic!("expected speech, got {other:?}"),
    }
    assert_eq!(app.poll_speaking(true), Some(0));
    assert_eq!(app.poll_speaking(false), None);
    let mut plain = app_with(vec![sentence("Hi", &[])]);
    match plain.speak() {
        Effect::Say(args) => assert_eq!(args, vec!["Hi [[slnc 700]]"]),
        other => panic!("expected speech, got {other:?}"),
    }
    plain.stop();
    assert_eq!(plain.poll_speaking(true), None);
}

#[test]
fn play_mode_walks_the_playlist() {
    let mut app = app_with(vec![sentence("a", &[]), sentence("b", &[])]);
    app.filter = "a".to_string();
    assert!(app.now_playing().is_none());
    match app.handle_key(Key::Char(' ')) {
        Effect::PlayStarted(Some(args)) => assert_eq!(args.len(), 1),
        other => panic!("expected play to start, got {other:?}"),
    }
    assert!(app.playing);
    assert_eq!(app.filter, "");
    assert_eq!(app.play_pos, 1);
    let first = app.playlist[0];
    assert_eq!(app.selected, first);
    assert_eq!(app.now_playing().unwrap().text, app.sentences[first].text);
    // Not due while speaking or before the pause ends.
    assert!(app.tick(true, true).is_none());
    assert!(app.tick(false, false).is_none());
    assert!(matches!(app.tick(false, true), Some(Effect::Say(_))));
    assert_eq!(app.play_pos, 2);
    // The playlist is used up: the next step reshuffles.
    app.advance();
    assert_eq!(app.play_pos, 1);
    assert_eq!(app.playlist.len(), 2);
    assert!(matches!(app.handle_key(Key::Char(' ')), Effect::PlayStopped));
    assert!(!app.playing);
    assert!(app.tick(false, true).is_none());
}

#[test]
fn pause_and_help_keys() {
    let mut app = app_with(vec![]);
    app.handle_key(Key::Char('+'));
    assert_eq!(app.pause_secs, 5);
    for _ in 0..10 {
        app.handle_key(Key::Char('-'));
    }
    assert_eq!(app.pause_secs, 1);
    app.handle_key(Key::Char('?'));
    assert_eq!(app.mode, Mode::Help);
    app.handle_key(Key::Other);
    assert_eq!(app.mode, Mode::Normal);
    assert!(matches!(app.handle_key(Key::Char('q')), Effect::Quit));
}

#[test]
fn pause_clock_waits_for_the_sentence_to_end() {
    assert_eq!(pause_step(false, true, false), PauseStep::Keep);
    assert_eq!(pause_step(true, true, true), PauseStep::Clear);
    assert_eq!(pause_step(true, false, false), PauseStep::Start);
    assert_eq!(pause_step(true, false, true), PauseStep::Keep);
}

#[test]
fn auto_play_highlights_the_spoken_row_of_the_filtered_list() {
    let mut app = app_with(vec![sentence("a", &[]), sentence("b", &[]), sentence("c", &[])]);
    app.playlist = vec![2, 0];
    app.play_pos = 0;
    app.filter = "c".to_string();
    app.advance();
    // Sentence 2 is the only match: row 0 of the filtered list.
    assert_eq!(app.selected, 0);
    assert_eq!(app.selected_text().as_deref(), Some("c"));
    // Sentence 0 is not shown: the highlight stays.
    app.advance();
    assert_eq!(app.selected, 0);
    assert_eq!(app.play_pos, 2);
}

#[test]
fn footer_hints_follow_the_mode() {
    let (lead, body) = footer_hints(false, Mode::Normal);
    assert_eq!(lead, vec![("?", "help"), ("q", "quit")]);
    assert_eq!(body.len(), 11);
    assert_eq!(body[0], ("j/k", "move"));
    let (lead, body) = footer_hints(true, Mode::Search);
    assert_eq!(lead.len(), 2);
    assert_eq!(body, vec![("space", "stop"), ("+/-", "pause"), ("</>", "speed")]);
    let (lead, body) = footer_hints(false, Mode::Help);
    assert!(lead.is_empty());
    assert_eq!(body, vec![("any key", "close")]);
}
