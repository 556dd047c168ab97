use groovebox::app_state::{AppState, Trigger, INSTRUMENTS, STEPS};

fn names(fired: &[Trigger]) -> Vec<String> {
    let mut v: Vec<String> = fired.iter().map(|t| t.instrument.clone()).collect();
    v.sort();
    v
}

#[test]
fn fresh_state_is_stopped_and_empty() {
    let s = AppState::new();
    assert!(!s.is_playing());
    assert_eq!(s.current_step(), 0);
    assert_eq!(s.selected_instrument(), None);
    for inst in INSTRUMENTS {
        assert_eq!(s.pattern(inst), Some([false; 16]));
        assert_eq!(s.sample_path(inst), None);
        assert!(!s.is_muted(inst));
        assert!(!s.is_solo(inst));
    }
    assert!(!s.any_solo_active());
    assert_eq!(s.pattern("Tom"), None);
    assert!(s.current_step() < STEPS);
}

#[test]
fn instrument_list() {
    assert_eq!(INSTRUMENTS, ["Kick", "Snare", "Open Hat", "Close Hat", "Clap"]);
    assert_eq!(STEPS, 16);
}

#[test]
fn get_or_init_pattern_creates_silent_and_edits_in_place() {
    let mut s = AppState::new();
    {
        let steps = s.get_or_init_pattern("Kick");
        assert_eq!(*steps, [false; 16]);
        steps[0] = true;
        steps[4] = true;
    }
    let p = s.pattern("Kick").unwrap();
    assert!(p[0] && p[4]);
    assert_eq!(p.iter().filter(|b| **b).count(), 2);
    // an existing pattern is handed back as it is
    let again = s.get_or_init_pattern("Kick");
    assert!(again[0] && again[4] && !again[1]);
}

#[test]
fn toggle_step_twice_restores_pattern() {
    let mut s = AppState::new();
    s.toggle_step("Snare", 3);
    assert_eq!(s.pattern("Snare").unwrap()[3], true);
    s.toggle_step("Snare", 3);
    assert_eq!(s.pattern("Snare").unwrap(), [false; 16]);
}

#[test]
fn receive_sample_sets_path_and_keeps_pattern() {
    let mut s = AppState::new();
    s.toggle_step("Kick", 2);
    s.receive_sample("Kick".to_string(), "samples/kick.wav".to_string());
    assert_eq!(s.sample_path("Kick"), Some("samples/kick.wav".to_string()));
    assert!(s.pattern("Kick").unwrap()[2]);
    s.receive_sample("Tom".to_string(), "tom.ogg".to_string());
    assert_eq!(s.pattern("Tom"), Some([false; 16]));
    assert_eq!(s.sample_path("Tom"), Some("tom.ogg".to_string()));
    s.receive_sample("Kick".to_string(), "other.wav".to_string());
    assert_eq!(s.sample_path("Kick"), Some("other.wav".to_string()));
    assert!(s.pattern("Kick").unwrap()[2]);
}

#[test]
fn transport_buttons() {
    let mut s = AppState::new();
    s.play();
    assert!(s.is_playing());
    s.toggle_pause();
    assert!(!s.is_playing());
    s.toggle_pause();
    assert!(s.is_playing());
    s.stop();
    assert!(!s.is_playing());
}

#[test]
fn select_instrument_sets_selection() {
    let mut s = AppState::new();
    s.select_instrument("Clap");
    assert_eq!(s.selected_instrument(), Some("Clap".to_string()));
    s.select_instrument("Snare");
    assert_eq!(s.selected_instrument(), Some("Snare".to_string()));
}

#[test]
fn mute_twice_restores_and_mute_clears_solo() {
    let mut s = AppState::new();
    s.toggle_solo("Kick");
    assert!(s.is_solo("Kick"));
    s.toggle_mute("Kick");
    assert!(s.is_muted("Kick"));
    assert!(!s.is_solo("Kick"));
    s.toggle_mute("Kick");
    assert!(!s.is_muted("Kick"));
    assert!(!s.is_solo("Kick"));
}

#[test]
fn solo_is_exclusive() {
    let mut s = AppState::new();
    s.toggle_solo("Kick");
    s.toggle_solo("Snare");
    assert!(s.is_solo("Snare"));
    assert!(!s.is_solo("Kick"));
    assert!(s.any_solo_active());
    assert!(s.should_play("Snare"));
    assert!(!s.should_play("Kick"));
    assert!(!s.should_play("Clap"));
    s.toggle_solo("Snare");
    assert!(!s.is_solo("Snare"));
    assert!(!s.any_solo_active());
    assert!(s.should_play("Kick"));
}

#[test]
fn muted_instrument_does_not_play() {
    let mut s = AppState::new();
    assert!(s.should_play("Kick"));
    s.toggle_mute("Kick");
    assert!(!s.should_play("Kick"));
    s.toggle_solo("Kick");
    assert!(!s.should_play("Kick"));
}

fn loaded() -> AppState {
    let mut s = AppState::new();
    s.receive_sample("Kick".to_string(), "kick.wav".to_string());
    s.receive_sample("Snare".to_string(), "snare.wav".to_string());
    s.receive_sample("Clap".to_string(), "clap.ogg".to_string());
    s.toggle_step("Kick", 1);
    s.toggle_step("Snare", 1);
    s.toggle_step("Clap", 2);
    s.toggle_step("Open Hat", 1); // a pattern without a sample never sounds
    s
}

#[test]
fn stopped_tick_rewinds_and_plays_nothing() {
    let mut s = loaded();
    s.play();
    s.tick(true);
    s.tick(true);
    assert_eq!(s.current_step(), 2);
    s.stop();
    let fired = s.tick(false);
    assert!(fired.is_empty());
    assert_eq!(s.current_step(), 0);
}

#[test]
fn tick_without_due_step_waits() {
    let mut s = loaded();
    s.play();
    let fired = s.tick(false);
    assert!(fired.is_empty());
    assert_eq!(s.current_step(), 0);
}

#[test]
fn due_tick_advances_and_fires_pattern() {
    let mut s = loaded();
    s.play();
    let fired = s.tick(true);
    assert_eq!(s.current_step(), 1);
    assert_eq!(names(&fired), vec!["Kick".to_string(), "Snare".to_string()]);
    for t in &fired {
        let expected = if t.instrument == "Kick" { "kick.wav" } else { "snare.wav" };
        assert_eq!(t.sample_path, expected);
    }
    let fired = s.tick(true);
    assert_eq!(s.current_step(), 2);
    assert_eq!(names(&fired), vec!["Clap".to_string()]);
    assert_eq!(fired[0].sample_path, "clap.ogg");
    let fired = s.tick(true);
    assert!(fired.is_empty());
}

#[test]
fn mute_and_solo_filter_triggers() {
    let mut s = loaded();
    s.play();
    s.toggle_mute("Kick");
    let fired = s.tick(true);
    assert_eq!(names(&fired), vec!["Snare".to_string()]);
    s.toggle_mute("Kick");
    s.toggle_solo("Kick");
    for _ in 0..15 {
        s.tick(true);
    }
    assert_eq!(s.current_step(), 0);
    let fired = s.tick(true);
    assert_eq!(names(&fired), vec!["Kick".to_string()]);
}

#[test]
fn sixteen_steps_loop_the_bar() {
    let mut s = loaded();
    s.play();
    let mut steps = Vec::new();
    for _ in 0..16 {
        s.tick(true);
        steps.push(s.current_step());
    }
    assert_eq!(steps, (1..16).chain(0..1).collect::<Vec<usize>>());
    assert_eq!(s.current_step(), 0);
}

#[test]
fn highlighted_step_follows_transport() {
    let mut s = loaded();
    assert!(!s.is_step_highlighted(0));
    s.play();
    assert!(s.is_step_highlighted(0));
    s.tick(true);
    assert!(s.is_step_highlighted(1));
    assert!(!s.is_step_highlighted(0));
}
