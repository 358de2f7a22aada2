use life_sim::control::Command;
use life_sim::control::Key;
use life_sim::control::Session;

#[test]
fn q_quits_and_p_pauses() {
    let mut s = Session::new();
    assert_eq!(s.on_key(Some(Key::Char('x'))), Command::Proceed);
    assert!(!s.paused);
    assert_eq!(s.on_key(None), Command::Proceed);
    assert_eq!(s.on_key(Some(Key::Other)), Command::Proceed);
    assert_eq!(s.on_key(Some(Key::Char('p'))), Command::Proceed);
    assert!(s.paused);
    assert_eq!(s.on_key(Some(Key::Char('q'))), Command::Quit);
}

#[test]
fn p_resumes_and_other_keys_step() {
    let mut s = Session::new();
    s.on_key(Some(Key::Char('p')));
    assert!(!s.on_paused_key(Some(Key::Char('a'))));
    assert!(s.paused);
    assert!(!s.on_paused_key(None));
    assert!(s.on_paused_key(Some(Key::Char('p'))));
    assert!(!s.paused);
}

#[test]
fn frames_are_counted_while_something_lives() {
    let mut s = Session::new();
    assert!(s.on_frame(true));
    assert!(s.on_frame(true));
    assert_eq!(s.count, 2);
    assert!(!s.on_frame(false));
    assert_eq!(s.count, 2);
}
