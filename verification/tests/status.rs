use ai_video::ui::status::{AiStatusState, QaEvent, MAX_STEPS};

#[test]
fn default_status() {
    let s = AiStatusState::default();
    assert_eq!(s.current, "idle");
    assert_eq!(s.steps, vec!["app started".to_string()]);
    assert!(!s.is_typing());
    let e = QaEvent::Status("x".to_string());
    assert!(matches!(e, QaEvent::Status(_)));
}

#[test]
fn set_skips_repeats_and_caps_history() {
    let mut s = AiStatusState::default();
    s.set("a");
    s.set("a");
    assert_eq!(s.current, "a");
    assert_eq!(s.steps, vec!["app started".to_string(), "a".to_string()]);
    for i in 0..40 {
        s.set(&format!("step {i}"));
    }
    assert_eq!(s.steps.len(), MAX_STEPS);
    assert_eq!(s.steps.last().unwrap(), "step 39");
    assert_eq!(s.steps[0], "step 10");
}

#[test]
fn set_trims_an_overlong_history_at_once() {
    let mut s = AiStatusState::default();
    s.steps = (0..45).map(|i| i.to_string()).collect();
    s.set("44");
    assert_eq!(s.steps.len(), 30);
    assert_eq!(s.steps[0], "15");
}

#[test]
fn latest_steps_text_shows_six() {
    let mut s = AiStatusState::default();
    assert_eq!(s.latest_steps_text(), "app started");
    for i in 1..=8 {
        s.set(&i.to_string());
    }
    assert_eq!(s.latest_steps_text(), "3 -> 4 -> 5 -> 6 -> 7 -> 8");
    s.steps.clear();
    assert_eq!(s.latest_steps_text(), "");
}

#[test]
fn typewriter_reveals_two_characters_per_step() {
    let mut s = AiStatusState::default();
    let mut log = vec!["user: hi".to_string(), "AI: ".to_string()];
    s.begin_typewriter(1, "你好吗".to_string());
    assert!(s.is_typing());
    assert_eq!(s.current, "ai answering");
    let t0 = std::time::Instant::now();
    assert!(s.advance_typewriter(t0, &mut log));
    assert_eq!(log[1], "AI: 你好");
    assert_eq!(s.typing_cursor, 2);
    assert!(s.advance_typewriter(t0, &mut log));
    assert_eq!(log[1], "AI: 你好吗");
    assert_eq!(s.typing_cursor, 3);
    assert!(!s.advance_typewriter(t0, &mut log));
    assert!(!s.is_typing());
    assert_eq!(s.current, "ai answer complete");
    assert_eq!(log[0], "user: hi");
    assert!(!s.advance_typewriter(t0, &mut log));
}

#[test]
fn typewriter_ignores_missing_chat_line() {
    let mut s = AiStatusState::default();
    let mut log: Vec<String> = Vec::new();
    s.begin_typewriter(5, "abc".to_string());
    assert!(s.advance_typewriter(std::time::Instant::now(), &mut log));
    assert!(log.is_empty());
}

#[test]
fn tick_typewriter_waits_for_the_interval() {
    let mut s = AiStatusState::default();
    let mut log = vec![String::new()];
    assert!(!s.tick_typewriter(&mut log));
    s.begin_typewriter(0, "abcdef".to_string());
    assert!(s.tick_typewriter(&mut log));
    assert_eq!(log[0], "AI: ab");
    assert!(s.tick_typewriter(&mut log));
    assert_eq!(log[0], "AI: ab");
    let wait = std::time::Instant::now();
    while wait.elapsed() < std::time::Duration::from_millis(25) {}
    assert!(s.tick_typewriter(&mut log));
    assert_eq!(log[0], "AI: abcd");
}

#[test]
fn tick_at_waits_for_the_interval() {
    let mut s = AiStatusState::default();
    let mut log = vec![String::new()];
    let t = std::time::Instant::now();
    assert!(!s.tick_typewriter_at(t, Some(0), &mut log));
    s.begin_typewriter(0, "abcde".to_string());
    assert!(s.tick_typewriter_at(t, Some(0), &mut log));
    assert_eq!(log[0], "AI: ab");
    let before = s.clone();
    assert!(s.tick_typewriter_at(t, Some(17), &mut log));
    assert_eq!(s.typing_cursor, before.typing_cursor);
    assert_eq!(log[0], "AI: ab");
    assert!(s.tick_typewriter_at(t, Some(18), &mut log));
    assert_eq!(log[0], "AI: abcd");
    assert!(s.tick_typewriter_at(t, None, &mut log));
    assert_eq!(log[0], "AI: abcde");
    assert!(!s.tick_typewriter_at(t, Some(100), &mut log));
    assert!(!s.is_typing());
    assert_eq!(s.current, "ai answer complete");
}
