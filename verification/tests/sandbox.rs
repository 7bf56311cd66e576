use reflection::debugger::{DebuggerFocus, RootTabs, TuiDebuggerState};
use reflection::sandbox::{
    crossterm_input_buffer_clear, crossterm_quit_on_ctrl_c, events_before_quit, tui_debugger_can_handle_input, tui_debugger_handle_input,
    CrosstermEventQueue, KeyCode,
    MainLoopState, PerspectiveProjection, TerminalEvent,
};

fn key(c: char, modifiers: u8) -> TerminalEvent {
    TerminalEvent::Key { code: KeyCode::Char(c), modifiers }
}

#[test]
fn main_loop_starts_running() {
    assert_eq!(MainLoopState::default(), MainLoopState::Running);
    assert_eq!(PerspectiveProjection::default(), PerspectiveProjection);
}

#[test]
fn ctrl_c_quits() {
    let mut q = CrosstermEventQueue::default();
    assert!(!crossterm_quit_on_ctrl_c(&q));
    q.push(key('c', 0));
    q.push(TerminalEvent::Other);
    assert!(!crossterm_quit_on_ctrl_c(&q));
    q.push(key('c', 2 | 1));
    assert!(!crossterm_quit_on_ctrl_c(&q));
    q.push(key('c', 2));
    assert!(crossterm_quit_on_ctrl_c(&q));
    crossterm_input_buffer_clear(&mut q);
    assert!(q.events().is_empty());
    assert!(!crossterm_quit_on_ctrl_c(&q));
}

#[test]
fn key_presses_reach_the_debugger_in_order() {
    let mut q = CrosstermEventQueue::default();
    q.push(key('l', 0));
    q.push(TerminalEvent::Key { code: KeyCode::Other, modifiers: 0 });
    q.push(key('l', 4));
    q.push(TerminalEvent::Other);
    q.push(key('j', 0));
    let mut s = TuiDebuggerState::default();
    tui_debugger_handle_input(&q, &mut s);
    assert_eq!(s.active_tab, RootTabs::Resource);
    assert_eq!(s.focus, DebuggerFocus::Resources);
    assert_eq!(q.events().len(), 5);
}

#[test]
fn key_presses_checked_before_handling() {
    let mut q = CrosstermEventQueue::default();
    q.push(key('l', 0));
    q.push(key('j', 0));
    let s = TuiDebuggerState::default();
    assert!(tui_debugger_can_handle_input(&q, &s));
    q.push(key('j', 0));
    assert!(!tui_debugger_can_handle_input(&q, &s));
    let mut with_entities = TuiDebuggerState::default();
    with_entities.entity_state.entity_count = 2;
    assert!(tui_debugger_can_handle_input(&q, &with_entities));
    tui_debugger_handle_input(&q, &mut with_entities);
    assert_eq!(with_entities.entity_state.entity_selected, Some(1));
}

#[test]
fn events_after_ctrl_c_are_not_handled() {
    let mut events = CrosstermEventQueue::default();
    events.push(key('a', 0));
    events.push(TerminalEvent::Other);
    events.push(key('c', 0));
    events.push(key('c', 2));
    events.push(key('b', 0));
    let (handled, quit) = events_before_quit(&events);
    assert!(quit);
    assert_eq!(handled, vec![key('a', 0), TerminalEvent::Other, key('c', 0)]);

    let mut calm = CrosstermEventQueue::default();
    calm.push(key('x', 2));
    calm.push(key('y', 0));
    let (handled, quit) = events_before_quit(&calm);
    assert!(!quit);
    assert_eq!(handled, vec![key('x', 2), key('y', 0)]);
}
