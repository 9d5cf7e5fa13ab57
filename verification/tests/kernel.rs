use redox_core::boot::listing_urls;
use redox_core::clock::{pit_duration, Clocks, Duration};
use redox_core::console::{
    idle_should_halt, ConsoleAction, ConsoleInput, DebugConsole, FrameAction, K_BKSP, K_F1, K_F2,
};
use redox_core::interrupts::{
    debug_init, dr, exception_report, kernel, ControlRegs, DebugOut, InterruptAction, Regs,
};

fn text(o: &DebugOut) -> String {
    match o {
        DebugOut::Text(s) => s.clone(),
        DebugOut::Hex(v) => format!("<{:X}>", v),
        DebugOut::NewLine => "\n".to_string(),
    }
}

fn render(v: &[DebugOut]) -> String {
    v.iter().map(text).collect()
}

#[test]
fn timer_and_irqs() {
    let d = kernel(0x20);
    assert!(d.eoi_master && !d.eoi_slave);
    assert!(matches!(d.action, InterruptAction::Tick));
    let d = kernel(0x21);
    assert!(matches!(d.action, InterruptAction::Irq(1)));
    let d = kernel(0x2C);
    assert!(d.eoi_master && d.eoi_slave);
    assert!(matches!(d.action, InterruptAction::Irq(0xC)));
    let d = kernel(0x2F);
    assert!(matches!(d.action, InterruptAction::Irq(0xF)));
}

#[test]
fn cascade_line_is_unknown() {
    let d = kernel(0x22);
    assert!(d.eoi_master && !d.eoi_slave);
    assert!(matches!(d.action,
        InterruptAction::Exception { name: "Unknown Interrupt", error_code: false }));
}

#[test]
fn syscall_and_init() {
    let d = kernel(0x80);
    assert!(!d.eoi_master && !d.eoi_slave);
    assert!(matches!(d.action, InterruptAction::Syscall));
    assert!(matches!(kernel(0xFF).action, InterruptAction::Init));
}

#[test]
fn exceptions_with_and_without_error_code() {
    assert!(matches!(kernel(0x0).action,
        InterruptAction::Exception { name: "Divide by zero exception", error_code: false }));
    assert!(matches!(kernel(0xE).action,
        InterruptAction::Exception { name: "Page fault", error_code: true }));
    assert!(matches!(kernel(0x8).action,
        InterruptAction::Exception { name: "Double fault", error_code: true }));
    assert!(matches!(kernel(0x1E).action,
        InterruptAction::Exception { name: "Security exception", error_code: true }));
    assert!(matches!(kernel(0x9).action,
        InterruptAction::Exception { name: "Unknown Interrupt", error_code: false }));
    assert!(matches!(kernel(0x30).action,
        InterruptAction::Exception { name: "Unknown Interrupt", error_code: false }));
    assert!(!kernel(0x30).eoi_master);
}

#[test]
fn register_line() {
    assert_eq!(render(&dr("AX", 0xBEEF)), "AX: <BEEF>\n");
}

fn regs() -> Regs {
    Regs { ip: 1, flags: 2, error: 3, ax: 4, bx: 5, cx: 6, dx: 7, di: 8, si: 9, bp: 10, sp: 11 }
}

fn crs() -> ControlRegs {
    ControlRegs { cr0: 12, cr2: 13, cr3: 14, cr4: 15 }
}

#[test]
fn report_without_error_code() {
    let r = render(&exception_report("Breakpoint exception", false, 3, 2, &regs(), &crs()));
    assert_eq!(r, "Breakpoint exception\nINT: <3>\nCONTEXT: <2>\nIP: <1>\nFLAGS: <2>\nAX: <4>\nBX: <5>\nCX: <6>\nDX: <7>\nDI: <8>\nSI: <9>\nBP: <A>\nSP: <B>\nCR0: <C>\nCR2: <D>\nCR3: <E>\nCR4: <F>\n");
}

#[test]
fn report_with_error_code_shifts_frame() {
    let r = render(&exception_report("Page fault", true, 0xE, 0, &regs(), &crs()));
    assert_eq!(r, "Page fault\nINT: <E>\nCONTEXT: <0>\nIP: <2>\nFLAGS: <3>\nERROR: <1>\nAX: <4>\nBX: <5>\nCX: <6>\nDX: <7>\nDI: <8>\nSI: <9>\nBP: <A>\nSP: <B>\nCR0: <C>\nCR2: <D>\nCR3: <E>\nCR4: <F>\n");
}

#[test]
fn serial_setup_writes() {
    assert_eq!(
        debug_init(),
        vec![(0x3F9, 0x00), (0x3FB, 0x80), (0x3F8, 0x03), (0x3F9, 0x00), (0x3FB, 0x03),
            (0x3FA, 0xC7), (0x3FC, 0x0B), (0x3F9, 0x01)]
    );
}

#[test]
fn durations_add_with_carry() {
    let a = Duration { secs: 1, nanos: 999_999_999 };
    let b = Duration { secs: 2, nanos: 2 };
    let c = a.add(b);
    assert_eq!((c.secs, c.nanos), (4, 1));
    let p = pit_duration();
    assert_eq!((p.secs, p.nanos), (0, 2_250_286));
}

#[test]
fn ticks_advance_both_clocks() {
    let mut clocks = Clocks::new();
    clocks.realtime = Duration { secs: 100, nanos: 999_000_000 };
    clocks.tick();
    assert_eq!((clocks.realtime.secs, clocks.realtime.nanos), (101, 1_250_286));
    assert_eq!((clocks.monotonic.secs, clocks.monotonic.nanos), (0, 2_250_286));
    for _ in 0..1000 {
        clocks.tick();
    }
    assert_eq!((clocks.monotonic.secs, clocks.monotonic.nanos), (2, 252_536_286));
}

fn key(character: char, scancode: u8) -> ConsoleInput {
    ConsoleInput::Key { character, scancode, pressed: true }
}

#[test]
fn console_typing_and_submit() {
    let mut c = DebugConsole::new();
    assert!(matches!(c.handle_event(key('l', 0x26)), ConsoleAction::Echo('l')));
    assert!(matches!(c.handle_event(key('s', 0x1F)), ConsoleAction::Echo('s')));
    assert!(matches!(c.handle_event(key('x', 0x2D)), ConsoleAction::Echo('x')));
    assert!(matches!(c.handle_event(key('\0', K_BKSP)), ConsoleAction::Backspace));
    assert!(matches!(c.handle_event(key('\0', 0x2A)), ConsoleAction::Ignore));
    assert!(matches!(c.handle_event(ConsoleInput::Key { character: 'q', scancode: 0x10, pressed: false }), ConsoleAction::Ignore));
    match c.handle_event(key('\n', 0x1C)) {
        ConsoleAction::Submit(line) => assert_eq!(line, "ls\n"),
        _ => panic!("enter submits"),
    }
    assert_eq!(c.command, "");
    assert!(matches!(c.handle_event(key('\0', K_BKSP)), ConsoleAction::Ignore));
}

#[test]
fn console_opens_and_closes() {
    let mut c = DebugConsole::new();
    assert!(c.draw);
    assert!(matches!(c.handle_event(key('\0', K_F2)), ConsoleAction::LeaveDebug));
    assert!(!c.draw);
    assert!(matches!(c.handle_event(key('a', 0x1E)), ConsoleAction::Forward));
    assert!(matches!(c.handle_event(ConsoleInput::Other), ConsoleAction::Forward));
    assert!(matches!(c.handle_event(ConsoleInput::Key { character: '\0', scancode: K_F1, pressed: false }), ConsoleAction::Forward));
    assert!(matches!(c.end_of_batch(), FrameAction::RedrawSession));
    assert!(matches!(c.handle_event(key('\0', K_F1)), ConsoleAction::EnterDebug));
    assert!(c.draw && c.redraw);
    assert!(matches!(c.end_of_batch(), FrameAction::FlipDebug));
    assert!(matches!(c.end_of_batch(), FrameAction::Nothing));
}

#[test]
fn idle_halts_only_when_nothing_waits() {
    assert!(idle_should_halt(&[]));
    assert!(idle_should_halt(&[true]));
    assert!(idle_should_halt(&[true, false, false]));
    assert!(!idle_should_halt(&[false, false, true]));
}

#[test]
fn listing_urls_pick_folders() {
    let urls = listing_urls("file:///apps/", "editor/\nREADME\r\nterminal/\r\n\nviewer/");
    assert_eq!(urls, ["file:///apps/editor/", "file:///apps/terminal/", "file:///apps/viewer/"]);
    assert!(listing_urls("file:///schemes/", "").is_empty());
}

#[test]
fn backspace_undoes_typing() {
    let mut c = DebugConsole::new();
    c.handle_event(key('a', 0x1E));
    let before = c.command.clone();
    c.handle_event(key('z', 0x2C));
    c.handle_event(key('\u{8}', K_BKSP));
    assert_eq!(c.command, before);
    assert!(c.draw);
}

#[test]
fn sums_do_not_depend_on_grouping() {
    let a = Duration { secs: 3, nanos: 600_000_000 };
    let b = Duration { secs: 0, nanos: 700_000_000 };
    let c = Duration { secs: 1, nanos: 900_000_000 };
    let left = a.add(b).add(c);
    let right = a.add(b.add(c));
    assert_eq!((left.secs, left.nanos), (right.secs, right.nanos));
    assert_eq!((left.secs, left.nanos), (6, 200_000_000));
}

#[test]
fn clocks_keep_their_distance() {
    let mut clocks = Clocks::new();
    clocks.realtime = Duration { secs: 1_700_000_000, nanos: 5 };
    let gap = |c: &Clocks| {
        (c.realtime.secs as i128 * 1_000_000_000 + c.realtime.nanos as i128)
            - (c.monotonic.secs as i128 * 1_000_000_000 + c.monotonic.nanos as i128)
    };
    let start = gap(&clocks);
    for _ in 0..500 {
        clocks.tick();
        assert_eq!(gap(&clocks), start);
    }
}

#[test]
fn clocks_move_only_on_the_timer() {
    let mut clocks = Clocks::new();
    for vector in [0x21usize, 0x80, 0x0, 0xE, 0x2C, 0x22] {
        clocks.on_interrupt(vector);
        assert_eq!((clocks.monotonic.secs, clocks.monotonic.nanos), (0, 0));
        assert_eq!((clocks.realtime.secs, clocks.realtime.nanos), (0, 0));
    }
    let d = clocks.on_interrupt(0x20);
    assert!(matches!(d.action, InterruptAction::Tick));
    assert!(d.eoi_master && !d.eoi_slave);
    assert_eq!((clocks.monotonic.secs, clocks.monotonic.nanos), (0, 2_250_286));
    assert_eq!((clocks.realtime.secs, clocks.realtime.nanos), (0, 2_250_286));
}
