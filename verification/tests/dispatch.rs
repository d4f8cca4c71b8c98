use marbles::{process_message, AppParams, ChatEvent, ConfigError, MarbleStates};

fn params(history_size: usize, threshold: usize, cooldown: u64, grace_delay: u64) -> AppParams {
    AppParams::new(
        history_size,
        threshold,
        cooldown,
        grace_delay,
        String::from("!play >:("),
        String::from("someone"),
        String::from("token"),
    )
    .unwrap()
}

fn watch(names: &[&str], config: &AppParams, now: u64) -> MarbleStates {
    let channels: Vec<String> = names.iter().map(|name| String::from(*name)).collect();
    MarbleStates::new(&channels, config, now).unwrap()
}

fn sorted_logins(states: &MarbleStates) -> Vec<String> {
    let mut logins = states.logins();
    logins.sort();
    logins
}

fn message(channel: &str, text: &str) -> ChatEvent {
    ChatEvent::Privmsg { channel_login: String::from(channel), message_text: String::from(text) }
}

fn snapshot(states: &MarbleStates, channel: &str) -> (Vec<bool>, usize, u128) {
    let state = states.get(&String::from(channel)).unwrap();
    (state.history().clone(), state.cursor(), state.next_eligible_at())
}

#[test]
fn empty_channel_list_is_refused() {
    let config = params(10, 5, 120, 5);
    let made = MarbleStates::new(&Vec::new(), &config, 0);
    assert_eq!(made.unwrap_err(), ConfigError::NoChannels);
}

#[test]
fn listed_channels_start_fresh() {
    let config = params(3, 2, 120, 5);
    let states = watch(&["beta", "alpha"], &config, 77);
    assert_eq!(sorted_logins(&states), vec![String::from("alpha"), String::from("beta")]);
    for name in ["alpha", "beta"] {
        let state = states.get(&String::from(name)).unwrap();
        assert_eq!(state.login(), name);
        assert_eq!(state.history(), &vec![false, false, false]);
        assert_eq!(state.cursor(), 0);
        assert_eq!(state.next_eligible_at(), 77);
    }
    assert!(states.get(&String::from("gamma")).is_none());
}

#[test]
fn channel_listed_twice_is_watched_once() {
    let config = params(3, 2, 120, 5);
    let states = watch(&["alpha", "beta", "alpha", "beta", "alpha"], &config, 0);
    assert_eq!(sorted_logins(&states), vec![String::from("alpha"), String::from("beta")]);
}

#[test]
fn message_in_unwatched_channel_is_ignored() {
    let config = params(3, 0, 120, 5);
    let mut states = watch(&["alpha"], &config, 0);
    let before = snapshot(&states, "alpha");
    assert!(process_message(&config, &mut states, &message("beta", "!play"), 10).is_none());
    assert_eq!(snapshot(&states, "alpha"), before);
    assert_eq!(sorted_logins(&states), vec![String::from("alpha")]);
}

#[test]
fn other_events_are_ignored() {
    let config = params(3, 0, 120, 5);
    let mut states = watch(&["alpha"], &config, 0);
    let before = snapshot(&states, "alpha");
    assert!(process_message(&config, &mut states, &ChatEvent::Other, 10).is_none());
    assert_eq!(snapshot(&states, "alpha"), before);
}

#[test]
fn play_names_channel_text_and_wait() {
    let config = params(3, 2, 120, 5);
    let mut states = watch(&["alpha", "beta"], &config, 0);
    assert!(process_message(&config, &mut states, &message("beta", "!play"), 10).is_none());
    let play = process_message(&config, &mut states, &message("beta", "!play"), 11).unwrap();
    assert_eq!(play.channel_login, "beta");
    assert_eq!(play.message, "!play >:(");
    assert_eq!(play.wait, 5);
    assert_eq!(snapshot(&states, "beta"), (vec![false, false, false], 2, 131));
}

#[test]
fn channels_do_not_touch_each_other() {
    let config = params(3, 2, 120, 5);
    let mut states = watch(&["alpha", "beta"], &config, 0);
    process_message(&config, &mut states, &message("alpha", "!play"), 1);
    let alpha = snapshot(&states, "alpha");
    assert_eq!(alpha, (vec![false, true, false], 1, 0));
    process_message(&config, &mut states, &message("beta", "!play"), 2);
    assert_eq!(snapshot(&states, "alpha"), alpha);
    assert!(process_message(&config, &mut states, &message("beta", "!play"), 3).is_some());
    assert_eq!(snapshot(&states, "alpha"), alpha);
    assert!(process_message(&config, &mut states, &message("beta", "!play"), 4).is_none());
    assert_eq!(snapshot(&states, "alpha"), alpha);
    assert_eq!(snapshot(&states, "beta"), (vec![true, false, false], 0, 123));
    // The cooldown of beta does not hold alpha back.
    assert!(process_message(&config, &mut states, &message("alpha", "!play"), 5).is_some());
}

#[test]
fn channel_names_are_compared_exactly() {
    let config = params(3, 0, 120, 5);
    let mut states = watch(&["alpha"], &config, 0);
    assert!(process_message(&config, &mut states, &message("Alpha", "!play"), 1).is_none());
    assert!(process_message(&config, &mut states, &message("alph", "!play"), 1).is_none());
    assert!(process_message(&config, &mut states, &message("alpha ", "!play"), 1).is_none());
    assert!(process_message(&config, &mut states, &message("alpha", "x"), 1).is_some());
}

#[test]
fn scenario_through_the_dispatcher() {
    let config = params(10, 5, 120, 5);
    let mut states = watch(&["racer"], &config, 0);
    for _ in 0..6 {
        assert!(process_message(&config, &mut states, &message("racer", "gl hf"), 1).is_none());
    }
    for _ in 0..4 {
        assert!(process_message(&config, &mut states, &message("racer", "!play"), 2).is_none());
    }
    let t = 100;
    let play = process_message(&config, &mut states, &message("racer", "!play"), t).unwrap();
    assert_eq!(play.channel_login, "racer");
    assert_eq!(play.message, "!play >:(");
    assert_eq!(play.wait, 5);
    let (history, _, next) = snapshot(&states, "racer");
    assert_eq!(history, vec![false; 10]);
    assert_eq!(next, 220);
    for _ in 0..5 {
        assert!(process_message(&config, &mut states, &message("racer", "!play"), t + 1).is_none());
    }
    assert_eq!(states.get(&String::from("racer")).unwrap().match_count(), 5);
    assert!(process_message(&config, &mut states, &message("racer", "!play"), t + 119).is_none());
    assert!(process_message(&config, &mut states, &message("racer", "!play"), t + 121).is_some());
    for _ in 0..4 {
        assert!(process_message(&config, &mut states, &message("racer", "!play"), t + 121).is_none());
    }
}

#[test]
fn four_matches_first_then_six_others_do_not_reach_five() {
    // The eleventh message takes the slot of the first: four matches stay.
    let config = params(10, 5, 120, 5);
    let mut states = watch(&["racer"], &config, 0);
    for _ in 0..4 {
        assert!(process_message(&config, &mut states, &message("racer", "!play"), 1).is_none());
    }
    for _ in 0..6 {
        assert!(process_message(&config, &mut states, &message("racer", "gl hf"), 1).is_none());
    }
    assert!(process_message(&config, &mut states, &message("racer", "!play"), 2).is_none());
    assert_eq!(states.get(&String::from("racer")).unwrap().match_count(), 4);
}
