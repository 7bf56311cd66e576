//! The sandbox's main-loop state and its queue of terminal input.
use vstd::prelude::*;

use crossterm::event::KeyModifiers;

use crate::debugger::{debugger_input_ok, debugger_step, TuiDebuggerState};

verus! {

/// Whether the main loop keeps running.
#[derive(Debug, Clone, Copy, PartialEq, Eq, Structural)]
pub enum MainLoopState {
    Running,
    Break,
}

impl Default for MainLoopState {
    /// The loop starts running.
    fn default() -> (r: Self)
        ensures
            r == MainLoopState::Running,
    {
        MainLoopState::Running
    }
}

/// Marks an entity whose projection is a perspective one.
#[derive(Debug, Default, Clone, Copy, PartialEq, Eq, Structural)]
pub struct PerspectiveProjection;

/// A key as the terminal reports it: a character, or another key.
#[derive(Debug, Clone, Copy, PartialEq, Eq, Structural)]
pub enum KeyCode {
    Char(char),
    Other,
}

/// An event read from the terminal: a key press with the bits of its modifiers, or anything
/// else.
#[derive(Debug, Clone, Copy, PartialEq, Eq, Structural)]
pub enum TerminalEvent {
    Key { code: KeyCode, modifiers: u8 },
    Other,
}

/// The modifier bits of Control held alone (`crossterm::event::KeyModifiers::CONTROL`, whose
/// bits the crate defines as `0b0000_0010`).
#[verifier::external_body]
fn control_modifier() -> (r: u8)
    ensures
        r == 2,
{
    KeyModifiers::CONTROL.bits()
}

/// Whether `e` is the key press Ctrl-C: the character `c` with Control held alone.
pub open spec fn is_ctrl_c(e: TerminalEvent) -> bool {
    e == TerminalEvent::Key { code: KeyCode::Char('c'), modifiers: 2 }
}

/// The characters of the character key presses among `events`, in order, whatever their
/// modifiers.
pub open spec fn key_chars(events: Seq<TerminalEvent>) -> Seq<char>
    decreases events.len(),
{
    if events.len() == 0 {
        Seq::empty()
    } else {
        let first = match events[0] {
            TerminalEvent::Key { code: KeyCode::Char(c), .. } => seq![c],
            _ => Seq::empty(),
        };
        first + key_chars(events.drop_first())
    }
}

/// The debugger after each of `inputs`, in order.
pub open spec fn debugger_steps(s: TuiDebuggerState, inputs: Seq<char>) -> TuiDebuggerState
    decreases inputs.len(),
{
    if inputs.len() == 0 {
        s
    } else {
        debugger_steps(debugger_step(s, inputs[0]), inputs.drop_first())
    }
}

/// Whether the debugger can take each of `inputs`, in order.
pub open spec fn debugger_inputs_ok(s: TuiDebuggerState, inputs: Seq<char>) -> bool
    decreases inputs.len(),
{
    inputs.len() == 0 || (debugger_input_ok(s, inputs[0]) && debugger_inputs_ok(
        debugger_step(s, inputs[0]),
        inputs.drop_first(),
    ))
}

/// Handing the debugger two runs of keys in turn is handing it the two runs joined.
pub proof fn law_inputs_in_two_runs(s: TuiDebuggerState, first: Seq<char>, second: Seq<char>)
    ensures
        debugger_steps(s, first + second) == debugger_steps(debugger_steps(s, first), second),
        debugger_inputs_ok(s, first + second) == (debugger_inputs_ok(s, first) && debugger_inputs_ok(
            debugger_steps(s, first),
            second,
        )),
    decreases first.len(),
{
    if first.len() == 0 {
        assert(first + second =~= second);
    } else {
        assert((first + second)[0] == first[0]);
        assert((first + second).drop_first() =~= first.drop_first() + second);
        law_inputs_in_two_runs(debugger_step(s, first[0]), first.drop_first(), second);
    }
}

/// The terminal events of the current frame, in the order in which they were read.
#[derive(Debug, Clone)]
pub struct CrosstermEventQueue(Vec<TerminalEvent>);

impl View for CrosstermEventQueue {
    type V = Seq<TerminalEvent>;

    closed spec fn view(&self) -> Seq<TerminalEvent> {
        self.0@
    }
}

impl Default for CrosstermEventQueue {
    /// An empty queue.
    fn default() -> (r: Self)
        ensures
            r@ == Seq::<TerminalEvent>::empty(),
    {
        CrosstermEventQueue(Vec::new())
    }
}

impl CrosstermEventQueue {
    /// The queued events.
    pub fn events(&self) -> (r: &Vec<TerminalEvent>)
        ensures
            r@ == self@,
    {
        &self.0
    }

    /// Queues `event` after the others.
    pub fn push(&mut self, event: TerminalEvent)
        ensures
            final(self)@ == old(self)@.push(event),
    {
        self.0.push(event);
    }

    /// Empties the queue.
    pub fn clear(&mut self)
        ensures
            final(self)@ == Seq::<TerminalEvent>::empty(),
    {
        self.0.clear();
    }
}

/// Empties the queue of terminal events.
pub fn crossterm_input_buffer_clear(events: &mut CrosstermEventQueue)
    ensures
        final(events)@ == Seq::<TerminalEvent>::empty(),
{
    events.clear();
}

/// Whether Ctrl-C is among the queued events.
pub fn crossterm_quit_on_ctrl_c(events: &CrosstermEventQueue) -> (r: bool)
    ensures
        r == exists|i: int| 0 <= i < events@.len() && is_ctrl_c(#[trigger] events@[i]),
{
    let control = control_modifier();
    let queued = events.events();
    let mut i: usize = 0;
    while i < queued.len()
        invariant
            queued@ == events@,
            control == 2,
            i <= queued@.len(),
            forall|j: int| 0 <= j < i ==> !is_ctrl_c(#[trigger] queued@[j]),
        decreases queued@.len() - i,
    {
        if let TerminalEvent::Key { code: KeyCode::Char(c), modifiers } = queued[i] {
            if c == 'c' && modifiers == control {
                return true;
            }
        }
        i = i + 1;
    }
    false
}

/// The events of a frame that are handled before the loop stops: those before the first
/// Ctrl-C, in order, and whether a Ctrl-C stops the loop.
pub fn events_before_quit(events: &CrosstermEventQueue) -> (r: (Vec<TerminalEvent>, bool))
    ensures
        r.0@ == events@.take(r.0@.len() as int),
        forall|i: int| 0 <= i < r.0@.len() ==> !is_ctrl_c(#[trigger] r.0@[i]),
        r.1 ==> r.0@.len() < events@.len() && is_ctrl_c(events@[r.0@.len() as int]),
        !r.1 ==> r.0@.len() == events@.len(),
{
    let control = control_modifier();
    let queued = events.events();
    let mut handled: Vec<TerminalEvent> = Vec::new();
    let mut i: usize = 0;
    while i < queued.len()
        invariant
            queued@ == events@,
            control == 2,
            i <= queued@.len(),
            handled@ == queued@.take(i as int),
            forall|j: int| 0 <= j < i ==> !is_ctrl_c(#[trigger] queued@[j]),
        decreases queued@.len() - i,
    {
        let e = queued[i];
        if let TerminalEvent::Key { code: KeyCode::Char(c), modifiers } = e {
            if c == 'c' && modifiers == control {
                return (handled, true);
            }
        }
        handled.push(e);
        proof {
            assert(handled@ =~= queued@.take(i + 1));
        }
        i = i + 1;
    }
    proof {
        assert(queued@.take(i as int) =~= queued@);
    }
    (handled, false)
}

/// Hands the character of each queued key press to the debugger, in order.
pub fn tui_debugger_handle_input(events: &CrosstermEventQueue, tui_debugger_state: &mut TuiDebuggerState)
    requires
        debugger_inputs_ok(*old(tui_debugger_state), key_chars(events@)),
    ensures
        *final(tui_debugger_state) == debugger_steps(*old(tui_debugger_state), key_chars(events@)),
{
    let queued = events.events();
    let mut i: usize = 0;
    proof {
        assert(queued@.skip(0) =~= queued@);
    }
    while i < queued.len()
        invariant
            queued@ == events@,
            i <= queued@.len(),
            debugger_steps(*old(tui_debugger_state), key_chars(events@)) == debugger_steps(
                *tui_debugger_state,
                key_chars(queued@.skip(i as int)),
            ),
            debugger_inputs_ok(*tui_debugger_state, key_chars(queued@.skip(i as int))),
        decreases queued@.len() - i,
    {
        let ghost rest = queued@.skip(i as int);
        proof {
            assert(rest[0] == queued@[i as int]);
            assert(rest.drop_first() =~= queued@.skip(i + 1));
        }
        if let TerminalEvent::Key { code: KeyCode::Char(c), .. } = queued[i] {
            proof {
                let tail = key_chars(queued@.skip(i + 1));
                assert(key_chars(rest) == seq![c] + tail);
                assert((seq![c] + tail)[0] == c);
                assert((seq![c] + tail).drop_first() =~= tail);
            }
            tui_debugger_state.handle_input(c);
        } else {
            proof {
                assert(key_chars(rest) =~= key_chars(queued@.skip(i + 1)));
            }
        }
        i = i + 1;
    }
    proof {
        assert(queued@.skip(i as int) =~= Seq::<TerminalEvent>::empty());
    }
}

/// Whether [`tui_debugger_handle_input`] can hand the queued key presses to the debugger (see
/// [`debugger_inputs_ok`]).
pub fn tui_debugger_can_handle_input(events: &CrosstermEventQueue, tui_debugger_state: &TuiDebuggerState) -> (r: bool)
    ensures
        r == debugger_inputs_ok(*tui_debugger_state, key_chars(events@)),
{
    let queued = events.events();
    let mut state = *tui_debugger_state;
    let mut i: usize = 0;
    proof {
        assert(queued@.skip(0) =~= queued@);
    }
    while i < queued.len()
        invariant
            queued@ == events@,
            i <= queued@.len(),
            debugger_inputs_ok(*tui_debugger_state, key_chars(events@)) == debugger_inputs_ok(
                state,
                key_chars(queued@.skip(i as int)),
            ),
        decreases queued@.len() - i,
    {
        let ghost rest = queued@.skip(i as int);
        proof {
            assert(rest[0] == queued@[i as int]);
            assert(rest.drop_first() =~= queued@.skip(i + 1));
        }
        if let TerminalEvent::Key { code: KeyCode::Char(c), .. } = queued[i] {
            proof {
                let tail = key_chars(queued@.skip(i + 1));
                assert(key_chars(rest) == seq![c] + tail);
                assert((seq![c] + tail)[0] == c);
                assert((seq![c] + tail).drop_first() =~= tail);
            }
            if !state.can_handle_input(c) {
                return false;
            }
            state.handle_input(c);
        } else {
            proof {
                assert(key_chars(rest) =~= key_chars(queued@.skip(i + 1)));
            }
        }
        i = i + 1;
    }
    proof {
        assert(queued@.skip(i as int) =~= Seq::<TerminalEvent>::empty());
    }
    true
}

} // verus!
