use prefixlog::{
    action_for, shutdown_step, Action, App, Config, DisplayState, Key, Line, ShutdownAction,
    ShutdownEvent, ShutdownPhase, DEFAULT_PREFIX,
};
use std::sync::mpsc::channel;
use std::time::Duration;

fn app() -> App {
    App::new(&Config {
        prefix: DEFAULT_PREFIX.to_string(),
        command: vec!["true".to_string()],
    })
    .unwrap()
}

#[test]
fn keys_map_to_actions() {
    assert_eq!(action_for(Key::Char('q')), Some(Action::Quit));
    assert_eq!(action_for(Key::Ctrl('c')), Some(Action::Quit));
    assert_eq!(action_for(Key::Char('c')), Some(Action::ClearCurrent));
    assert_eq!(action_for(Key::Char('C')), Some(Action::ClearAll));
    assert_eq!(action_for(Key::WheelUp), Some(Action::ScrollUp));
    assert_eq!(action_for(Key::Char('J')), Some(Action::ScrollDown));
    assert_eq!(action_for(Key::Esc), Some(Action::ShowMessages));
    assert_eq!(action_for(Key::Tab), Some(Action::CycleDisplay));
    assert_eq!(action_for(Key::Enter), Some(Action::Export));
    assert_eq!(action_for(Key::Char('x')), None);
    assert_eq!(action_for(Key::Other), None);
}

#[test]
fn apply_reports_quit_only_for_quit() {
    let mut a = app();
    assert!(a.apply(Action::Quit, 10));
    assert!(!a.apply(Action::Export, 10));
    assert!(!a.apply(Action::ShowErrors, 10));
    assert_eq!(a.display_state, DisplayState::Errors);
}

#[test]
fn apply_scrolls_and_clears_selected_log() {
    let mut a = app();
    for i in 0..8 {
        a.process_line(&Line::with_prefix("x".to_string(), format!("{}", i), false));
    }
    assert!(!a.apply(Action::ScrollUp, 3));
    assert_eq!(a.get_current_bucket().unwrap().scroll, Some(4));
    assert!(!a.apply(Action::ClearCurrent, 3));
    assert!(a.get_current_bucket().unwrap().get_all_messages().is_empty());
    assert_eq!(a.get_buckets().len(), 1);
}

#[test]
fn restore_waits_for_confirmation() {
    let (phase, action) = shutdown_step(ShutdownPhase::Running, ShutdownEvent::Quit);
    assert_eq!(phase, ShutdownPhase::Signalled);
    assert_eq!(action, ShutdownAction::SignalGroup);
    let (phase, action) = shutdown_step(phase, ShutdownEvent::Quit);
    assert_eq!(phase, ShutdownPhase::Signalled);
    assert_eq!(action, ShutdownAction::Wait);
    let (phase, action) = shutdown_step(phase, ShutdownEvent::Confirmation);
    assert_eq!(phase, ShutdownPhase::Confirmed);
    assert_eq!(action, ShutdownAction::RestoreTerminal);
}

#[test]
fn confirmation_before_quit_is_ignored() {
    let (phase, action) = shutdown_step(ShutdownPhase::Running, ShutdownEvent::Confirmation);
    assert_eq!(phase, ShutdownPhase::Running);
    assert_eq!(action, ShutdownAction::Wait);
}

#[test]
fn shutdown_blocks_until_handler_confirms() {
    let (tx, rx) = channel::<()>();
    let (phase, action) = shutdown_step(ShutdownPhase::Running, ShutdownEvent::Quit);
    assert_eq!(action, ShutdownAction::SignalGroup);
    assert!(rx.recv_timeout(Duration::from_millis(50)).is_err());
    assert_eq!(phase, ShutdownPhase::Signalled);
    tx.send(()).unwrap();
    rx.recv().unwrap();
    let (phase, action) = shutdown_step(phase, ShutdownEvent::Confirmation);
    assert_eq!(phase, ShutdownPhase::Confirmed);
    assert_eq!(action, ShutdownAction::RestoreTerminal);
}
