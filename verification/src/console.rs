use vstd::prelude::*;
use crate::text::{piece, push_char};

verus! {

/// Scancode of the backspace key.
pub const K_BKSP: u8 = 0x0E;

/// Scancode of F1, which opens the debug console.
pub const K_F1: u8 = 0x3B;

/// Scancode of F2, which closes the debug console.
pub const K_F2: u8 = 0x3C;

/// An event as the debug console sees it.
pub enum ConsoleInput {
    /// A key event: the character it types, its scancode, and whether the key went down.
    Key { character: char, scancode: u8, pressed: bool },
    /// Any other event.
    Other,
}

/// What the kernel does after the console has seen an event.
pub enum ConsoleAction {
    /// Nothing.
    Ignore,
    /// The console closed: the session redraws.
    LeaveDebug,
    /// A character was erased: echo a backspace.
    Backspace,
    /// A command line is complete: hand this text to the debug scheme, then end the line.
    Submit(String),
    /// A character was typed: echo it.
    Echo(char),
    /// The console opened.
    EnterDebug,
    /// The console is closed: the session handles the event.
    Forward,
}

/// The debug console: whether it is shown, whether it must be redrawn, and
/// the command line being typed.
pub struct DebugConsole {
    pub draw: bool,
    pub redraw: bool,
    pub command: String,
}

/// What ends a batch of events.
#[derive(PartialEq, Eq, Structural)]
pub enum FrameAction {
    /// Nothing to draw.
    Nothing,
    /// Show the debug display again.
    FlipDebug,
    /// Redraw the session.
    RedrawSession,
}

/// A press of F1.
pub open spec fn opens_console(input: ConsoleInput) -> bool {
    match input {
        ConsoleInput::Key { scancode, pressed, .. } => pressed && scancode == K_F1,
        ConsoleInput::Other => false,
    }
}

/// The mathematical value of a [`DebugConsole`].
pub struct ConsoleState {
    pub draw: bool,
    pub redraw: bool,
    pub command: Seq<char>,
}

/// The mathematical value of a [`ConsoleAction`].
pub enum Effect {
    Ignore,
    LeaveDebug,
    Backspace,
    Submit(Seq<char>),
    Echo(char),
    EnterDebug,
    Forward,
}

impl View for ConsoleAction {
    type V = Effect;

    open spec fn view(&self) -> Effect {
        match self {
            ConsoleAction::Ignore => Effect::Ignore,
            ConsoleAction::LeaveDebug => Effect::LeaveDebug,
            ConsoleAction::Backspace => Effect::Backspace,
            ConsoleAction::Submit(s) => Effect::Submit(s@),
            ConsoleAction::Echo(c) => Effect::Echo(*c),
            ConsoleAction::EnterDebug => Effect::EnterDebug,
            ConsoleAction::Forward => Effect::Forward,
        }
    }
}

impl View for DebugConsole {
    type V = ConsoleState;

    open spec fn view(&self) -> ConsoleState {
        ConsoleState { draw: self.draw, redraw: self.redraw, command: self.command@ }
    }
}

/// The console after one event, and what the kernel does. While the console
/// is shown, a pressed F2 closes it, a pressed backspace erases the last
/// character (if any), a pressed key that types `\n` submits the line (with its
/// `\n`) and clears it, one that types `\0` does nothing, and one that types
/// any other character appends it; released keys and other events do
/// nothing. While it is hidden, a pressed F1 shows it (to be redrawn) and
/// every other event goes to the session.
pub open spec fn console_step(s: ConsoleState, input: ConsoleInput) -> (ConsoleState, Effect) {
    if s.draw {
        match input {
            ConsoleInput::Key { character, scancode, pressed } => {
                if !pressed {
                    (s, Effect::Ignore)
                } else if scancode == K_F2 {
                    (ConsoleState { draw: false, ..s }, Effect::LeaveDebug)
                } else if scancode == K_BKSP {
                    if s.command.len() > 0 {
                        (ConsoleState { command: s.command.drop_last(), ..s }, Effect::Backspace)
                    } else {
                        (s, Effect::Ignore)
                    }
                } else if character == '\0' {
                    (s, Effect::Ignore)
                } else if character == '\n' {
                    (
                        ConsoleState { command: Seq::empty(), ..s },
                        Effect::Submit(s.command.push('\n')),
                    )
                } else {
                    (ConsoleState { command: s.command.push(character), ..s }, Effect::Echo(character))
                }
            },
            ConsoleInput::Other => (s, Effect::Ignore),
        }
    } else if opens_console(input) {
        (ConsoleState { draw: true, redraw: true, ..s }, Effect::EnterDebug)
    } else {
        (s, Effect::Forward)
    }
}

impl DebugConsole {
    /// A fresh console, shown, as the kernel starts with it.
    pub fn new() -> (r: DebugConsole)
        ensures
            r@ == (ConsoleState { draw: true, redraw: false, command: Seq::empty() }),
    {
        DebugConsole { draw: true, redraw: false, command: String::new() }
    }

    /// One event, as [`console_step`] describes.
    pub fn handle_event(&mut self, input: ConsoleInput) -> (act: ConsoleAction)
        ensures
            (final(self)@, act@) == console_step(old(self)@, input),
    {
        if self.draw {
            match input {
                ConsoleInput::Key { character, scancode, pressed } => {
                    if !pressed {
                        return ConsoleAction::Ignore;
                    }
                    if scancode == K_F2 {
                        self.draw = false;
                        ConsoleAction::LeaveDebug
                    } else if scancode == K_BKSP {
                        let n = self.command.as_str().unicode_len();
                        if n > 0 {
                            self.command = piece(self.command.as_str(), 0, n - 1);
                            ConsoleAction::Backspace
                        } else {
                            ConsoleAction::Ignore
                        }
                    } else if character == '\0' {
                        ConsoleAction::Ignore
                    } else if character == '\n' {
                        let mut line = self.command.clone();
                        push_char(&mut line, '\n');
                        self.command = String::new();
                        ConsoleAction::Submit(line)
                    } else {
                        push_char(&mut self.command, character);
                        ConsoleAction::Echo(character)
                    }
                },
                ConsoleInput::Other => ConsoleAction::Ignore,
            }
        } else {
            match input {
                ConsoleInput::Key { scancode, pressed, .. } => {
                    if scancode == K_F1 && pressed {
                        self.draw = true;
                        self.redraw = true;
                        ConsoleAction::EnterDebug
                    } else {
                        ConsoleAction::Forward
                    }
                },
                ConsoleInput::Other => ConsoleAction::Forward,
            }
        }
    }

    /// The end of a batch of events: the shown console is flipped onto the
    /// display once after it was asked to redraw; a hidden console lets the
    /// session redraw.
    pub fn end_of_batch(&mut self) -> (act: FrameAction)
        ensures
            final(self).draw == old(self).draw,
            final(self).command@ == old(self).command@,
            old(self).draw && old(self).redraw ==> act == FrameAction::FlipDebug && !final(self).redraw,
            old(self).draw && !old(self).redraw ==> act == FrameAction::Nothing && !final(self).redraw,
            !old(self).draw ==> act == FrameAction::RedrawSession && final(self).redraw == old(self).redraw,
    {
        if self.draw {
            if self.redraw {
                self.redraw = false;
                FrameAction::FlipDebug
            } else {
                FrameAction::Nothing
            }
        } else {
            FrameAction::RedrawSession
        }
    }
}

/// Whether the idle loop halts the processor: only when no context after the
/// idle one (index 0) was interrupted.
pub fn idle_should_halt(interrupted: &[bool]) -> (halt: bool)
    ensures
        halt == forall|i: int| 1 <= i < interrupted@.len() ==> !interrupted@[i],
{
    let mut i: usize = 1;
    while i < interrupted.len()
        invariant
            1 <= i,
            i <= interrupted.len() || interrupted@.len() == 0,
            forall|j: int| 1 <= j < i && j < interrupted@.len() ==> !interrupted@[j],
        decreases interrupted.len() - i,
    {
        if interrupted[i] {
            return false;
        }
        i = i + 1;
    }
    true
}

/// A key press with scancode `scancode` that types `c`.
pub open spec fn typing(c: char, scancode: u8) -> ConsoleInput {
    ConsoleInput::Key { character: c, scancode, pressed: true }
}

/// A key that types a character into the command line.
pub open spec fn types_into_line(c: char, scancode: u8) -> bool {
    scancode != K_F2 && scancode != K_BKSP && c != '\0' && c != '\n'
}

/// The console after a series of events.
pub open spec fn console_after(s: ConsoleState, inputs: Seq<ConsoleInput>) -> ConsoleState
    decreases inputs.len(),
{
    if inputs.len() == 0 {
        s
    } else {
        console_step(console_after(s, inputs.drop_last()), inputs.last()).0
    }
}

/// Undo law: on the shown console, typing a character and then pressing
/// backspace leaves the console as it was.
pub proof fn law_backspace_undoes_typing(s: ConsoleState, c: char, scancode: u8, bksp_char: char)
    requires
        s.draw,
        types_into_line(c, scancode),
    ensures
        ({
            let (s1, e1) = console_step(s, typing(c, scancode));
            let (s2, e2) = console_step(s1, typing(bksp_char, K_BKSP));
            &&& e1 == Effect::Echo(c)
            &&& e2 == Effect::Backspace
            &&& s2 == s
        }),
{
    assert(s.command.push(c).drop_last() =~= s.command);
}

/// Toggle law: on the hidden console, F1 and then F2 hide it again with the
/// command line untouched; the session is asked to redraw on the way out.
pub proof fn law_f1_then_f2_returns_to_session(s: ConsoleState, c1: char, c2: char)
    requires
        !s.draw,
    ensures
        ({
            let (s1, e1) = console_step(s, typing(c1, K_F1));
            let (s2, e2) = console_step(s1, typing(c2, K_F2));
            &&& e1 == Effect::EnterDebug
            &&& e2 == Effect::LeaveDebug
            &&& !s2.draw
            &&& s2.command == s.command
        }),
{
}

/// Typing law: on the shown console, typing characters one key at a time
/// appends exactly those characters to the command line.
pub proof fn law_typing_appends(s: ConsoleState, chars: Seq<char>, scancodes: Seq<u8>)
    requires
        s.draw,
        chars.len() == scancodes.len(),
        forall|i: int| 0 <= i < chars.len() ==> types_into_line(#[trigger] chars[i], scancodes[i]),
    ensures
        ({
            let after = console_after(
                s,
                Seq::new(chars.len(), |i: int| typing(chars[i], scancodes[i])),
            );
            &&& after.draw
            &&& after.redraw == s.redraw
            &&& after.command == s.command + chars
        }),
    decreases chars.len(),
{
    let inputs = Seq::new(chars.len(), |i: int| typing(chars[i], scancodes[i]));
    if chars.len() == 0 {
        assert(s.command + chars =~= s.command);
    } else {
        let n = chars.len() - 1;
        law_typing_appends(s, chars.drop_last(), scancodes.drop_last());
        let prefix = Seq::new(chars.drop_last().len(), |i: int| typing(chars.drop_last()[i], scancodes.drop_last()[i]));
        assert(inputs.drop_last() =~= prefix);
        assert(types_into_line(chars[n], scancodes[n]));
        assert(s.command + chars =~= (s.command + chars.drop_last()).push(chars[n]));
    }
}

/// Release law: on the shown console a released key changes nothing and
/// asks for nothing, whatever key it is.
pub proof fn law_released_keys_are_ignored(s: ConsoleState, character: char, scancode: u8)
    requires
        s.draw,
    ensures
        console_step(s, ConsoleInput::Key { character, scancode, pressed: false }) == (
            s,
            Effect::Ignore,
        ),
{
}

} // verus!
