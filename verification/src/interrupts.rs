use vstd::prelude::*;

verus! {

/// One piece of output on the debug console.
pub enum DebugOut {
    /// Text as it is.
    Text(String),
    /// A number in hexadecimal.
    Hex(usize),
    /// The end of a line.
    NewLine,
}

/// The mathematical value of a [`DebugOut`].
pub enum Out {
    Text(Seq<char>),
    Hex(usize),
    NewLine,
}

impl View for DebugOut {
    type V = Out;

    open spec fn view(&self) -> Out {
        match self {
            DebugOut::Text(s) => Out::Text(s@),
            DebugOut::Hex(v) => Out::Hex(*v),
            DebugOut::NewLine => Out::NewLine,
        }
    }
}

/// The view of a list of debug output.
pub open spec fn outs(v: Seq<DebugOut>) -> Seq<Out> {
    v.map_values(|d: DebugOut| d@)
}

/// A register line of a crash report: `NAME: value` in hexadecimal.
pub open spec fn reg_line(name: Seq<char>, value: usize) -> Seq<Out> {
    seq![Out::Text(name), Out::Text(": "@), Out::Hex(value), Out::NewLine]
}

/// Writes one register line: the name, `": "`, the value in hexadecimal, and a line end.
pub fn dr(reg: &str, value: usize) -> (r: Vec<DebugOut>)
    ensures
        outs(r@) == reg_line(reg@, value),
{
    let mut r: Vec<DebugOut> = Vec::new();
    r.push(DebugOut::Text(String::from_str(reg)));
    r.push(DebugOut::Text(String::from_str(": ")));
    r.push(DebugOut::Hex(value));
    r.push(DebugOut::NewLine);
    assert(outs(r@) =~= reg_line(reg@, value));
    r
}

/// The general registers saved on entry to the kernel.
pub struct Regs {
    pub ip: usize,
    pub flags: usize,
    pub error: usize,
    pub ax: usize,
    pub bx: usize,
    pub cx: usize,
    pub dx: usize,
    pub di: usize,
    pub si: usize,
    pub bp: usize,
    pub sp: usize,
}

/// The control registers as read when reporting a crash.
pub struct ControlRegs {
    pub cr0: usize,
    pub cr2: usize,
    pub cr3: usize,
    pub cr4: usize,
}

/// What the kernel does for an interrupt, after acknowledging it.
pub enum InterruptAction {
    /// The timer: advance the clocks and switch contexts.
    Tick,
    /// A device line: let the session handle this IRQ.
    Irq(u8),
    /// A system call.
    Syscall,
    /// Start the kernel, then idle.
    Init,
    /// A CPU exception: report it and stop the context. `error_code` tells
    /// whether the CPU pushed an error code.
    Exception { name: &'static str, error_code: bool },
}

/// The full plan for an interrupt: which interrupt controllers get an
/// end-of-interrupt, then what to do.
pub struct Dispatch {
    pub eoi_slave: bool,
    pub eoi_master: bool,
    pub action: InterruptAction,
}

/// The name of a CPU exception and whether it carries an error code; `None`
/// for vectors that are not exceptions of the table.
pub open spec fn exception_of(interrupt: usize) -> Option<(&'static str, bool)> {
    if interrupt == 0x0 {
        Some(("Divide by zero exception", false))
    } else if interrupt == 0x1 {
        Some(("Debug exception", false))
    } else if interrupt == 0x2 {
        Some(("Non-maskable interrupt", false))
    } else if interrupt == 0x3 {
        Some(("Breakpoint exception", false))
    } else if interrupt == 0x4 {
        Some(("Overflow exception", false))
    } else if interrupt == 0x5 {
        Some(("Bound range exceeded exception", false))
    } else if interrupt == 0x6 {
        Some(("Invalid opcode exception", false))
    } else if interrupt == 0x7 {
        Some(("Device not available exception", false))
    } else if interrupt == 0x8 {
        Some(("Double fault", true))
    } else if interrupt == 0xA {
        Some(("Invalid TSS exception", true))
    } else if interrupt == 0xB {
        Some(("Segment not present exception", true))
    } else if interrupt == 0xC {
        Some(("Stack-segment fault", true))
    } else if interrupt == 0xD {
        Some(("General protection fault", true))
    } else if interrupt == 0xE {
        Some(("Page fault", true))
    } else if interrupt == 0x10 {
        Some(("x87 floating-point exception", false))
    } else if interrupt == 0x11 {
        Some(("Alignment check exception", true))
    } else if interrupt == 0x12 {
        Some(("Machine check exception", false))
    } else if interrupt == 0x13 {
        Some(("SIMD floating-point exception", false))
    } else if interrupt == 0x14 {
        Some(("Virtualization exception", false))
    } else if interrupt == 0x1E {
        Some(("Security exception", true))
    } else {
        None
    }
}

/// What each interrupt vector leads to: the timer, the IRQ lines of the two
/// interrupt controllers (all but the cascade line 2), system calls, the
/// start-up vector, CPU exceptions, and an "Unknown Interrupt" report for
/// everything else.
pub open spec fn action_of(interrupt: usize) -> InterruptAction {
    if interrupt == 0x20 {
        InterruptAction::Tick
    } else if 0x21 <= interrupt < 0x30 && interrupt != 0x22 {
        InterruptAction::Irq((interrupt - 0x20) as u8)
    } else if interrupt == 0x80 {
        InterruptAction::Syscall
    } else if interrupt == 0xFF {
        InterruptAction::Init
    } else {
        match exception_of(interrupt) {
            Some((name, error_code)) => InterruptAction::Exception { name, error_code },
            None => InterruptAction::Exception { name: "Unknown Interrupt", error_code: false },
        }
    }
}

fn exception_exec(interrupt: usize) -> (r: Option<(&'static str, bool)>)
    ensures
        r == exception_of(interrupt),
{
    match interrupt {
        0x0 => Some(("Divide by zero exception", false)),
        0x1 => Some(("Debug exception", false)),
        0x2 => Some(("Non-maskable interrupt", false)),
        0x3 => Some(("Breakpoint exception", false)),
        0x4 => Some(("Overflow exception", false)),
        0x5 => Some(("Bound range exceeded exception", false)),
        0x6 => Some(("Invalid opcode exception", false)),
        0x7 => Some(("Device not available exception", false)),
        0x8 => Some(("Double fault", true)),
        0xA => Some(("Invalid TSS exception", true)),
        0xB => Some(("Segment not present exception", true)),
        0xC => Some(("Stack-segment fault", true)),
        0xD => Some(("General protection fault", true)),
        0xE => Some(("Page fault", true)),
        0x10 => Some(("x87 floating-point exception", false)),
        0x11 => Some(("Alignment check exception", true)),
        0x12 => Some(("Machine check exception", false)),
        0x13 => Some(("SIMD floating-point exception", false)),
        0x14 => Some(("Virtualization exception", false)),
        0x1E => Some(("Security exception", true)),
        _ => None,
    }
}

/// Take an interrupt vector and decide how the kernel handles it: vectors
/// 0x20 to 0x2F are acknowledged to the master controller, 0x28 to 0x2F to the
/// slave as well, before the action runs.
pub fn kernel(interrupt: usize) -> (d: Dispatch)
    ensures
        d.eoi_master == (0x20 <= interrupt < 0x30),
        d.eoi_slave == (0x28 <= interrupt < 0x30),
        d.action == action_of(interrupt),
{
    let eoi_master = interrupt >= 0x20 && interrupt < 0x30;
    let eoi_slave = eoi_master && interrupt >= 0x28;
    let action = if interrupt == 0x20 {
        InterruptAction::Tick
    } else if interrupt >= 0x21 && interrupt < 0x30 && interrupt != 0x22 {
        InterruptAction::Irq((interrupt - 0x20) as u8)
    } else if interrupt == 0x80 {
        InterruptAction::Syscall
    } else if interrupt == 0xFF {
        InterruptAction::Init
    } else {
        match exception_exec(interrupt) {
            Some((name, error_code)) => InterruptAction::Exception { name, error_code },
            None => InterruptAction::Exception { name: "Unknown Interrupt", error_code: false },
        }
    };
    Dispatch { eoi_slave, eoi_master, action }
}

/// The registers a crash report lists after the interrupt and context: for
/// exceptions without an error code `IP` and `FLAGS`; for those with one, the
/// three slots labelled `IP`, `FLAGS` and `ERROR` show the saved flags, error
/// code and instruction pointer, in that order.
pub open spec fn frame_lines(error_code: bool, regs: Regs) -> Seq<Out> {
    if error_code {
        reg_line("IP"@, regs.flags) + reg_line("FLAGS"@, regs.error) + reg_line("ERROR"@, regs.ip)
    } else {
        reg_line("IP"@, regs.ip) + reg_line("FLAGS"@, regs.flags)
    }
}

/// The crash report for an exception: its name on a line, the interrupt and
/// context, the frame, the general registers, and the control registers.
pub open spec fn report_spec(
    name: Seq<char>,
    error_code: bool,
    interrupt: usize,
    context: usize,
    regs: Regs,
    cr: ControlRegs,
) -> Seq<Out> {
    seq![Out::Text(name), Out::NewLine] + reg_line("INT"@, interrupt) + reg_line("CONTEXT"@, context)
        + frame_lines(error_code, regs) + reg_line("AX"@, regs.ax) + reg_line("BX"@, regs.bx)
        + reg_line("CX"@, regs.cx) + reg_line("DX"@, regs.dx) + reg_line("DI"@, regs.di)
        + reg_line("SI"@, regs.si) + reg_line("BP"@, regs.bp) + reg_line("SP"@, regs.sp)
        + reg_line("CR0"@, cr.cr0) + reg_line("CR2"@, cr.cr2) + reg_line("CR3"@, cr.cr3)
        + reg_line("CR4"@, cr.cr4)
}

fn append_line(out: &mut Vec<DebugOut>, reg: &str, value: usize)
    ensures
        outs(final(out)@) == outs(old(out)@) + reg_line(reg@, value),
{
    let mut line = dr(reg, value);
    let ghost before = out@;
    out.append(&mut line);
    assert(outs(out@) =~= outs(before) + reg_line(reg@, value));
}

/// Builds the crash report for an exception.
pub fn exception_report(
    name: &str,
    error_code: bool,
    interrupt: usize,
    context: usize,
    regs: &Regs,
    cr: &ControlRegs,
) -> (r: Vec<DebugOut>)
    ensures
        outs(r@) == report_spec(name@, error_code, interrupt, context, *regs, *cr),
{
    let mut out: Vec<DebugOut> = Vec::new();
    out.push(DebugOut::Text(String::from_str(name)));
    out.push(DebugOut::NewLine);
    assert(outs(out@) =~= seq![Out::Text(name@), Out::NewLine]);
    append_line(&mut out, "INT", interrupt);
    append_line(&mut out, "CONTEXT", context);
    if error_code {
        append_line(&mut out, "IP", regs.flags);
        append_line(&mut out, "FLAGS", regs.error);
        append_line(&mut out, "ERROR", regs.ip);
    } else {
        append_line(&mut out, "IP", regs.ip);
        append_line(&mut out, "FLAGS", regs.flags);
    }
    append_line(&mut out, "AX", regs.ax);
    append_line(&mut out, "BX", regs.bx);
    append_line(&mut out, "CX", regs.cx);
    append_line(&mut out, "DX", regs.dx);
    append_line(&mut out, "DI", regs.di);
    append_line(&mut out, "SI", regs.si);
    append_line(&mut out, "BP", regs.bp);
    append_line(&mut out, "SP", regs.sp);
    append_line(&mut out, "CR0", cr.cr0);
    append_line(&mut out, "CR2", cr.cr2);
    append_line(&mut out, "CR3", cr.cr3);
    append_line(&mut out, "CR4", cr.cr4);
    assert(outs(out@) =~= report_spec(name@, error_code, interrupt, context, *regs, *cr));
    out
}

/// Initialize debug: the port writes that set up the first serial port (at
/// 0x3F8) for the debug console, in order.
pub fn debug_init() -> (r: Vec<(u16, u8)>)
    ensures
        r@ == seq![
            (0x3F9u16, 0x00u8),
            (0x3FBu16, 0x80u8),
            (0x3F8u16, 0x03u8),
            (0x3F9u16, 0x00u8),
            (0x3FBu16, 0x03u8),
            (0x3FAu16, 0xC7u8),
            (0x3FCu16, 0x0Bu8),
            (0x3F9u16, 0x01u8),
        ],
{
    let mut r: Vec<(u16, u8)> = Vec::new();
    r.push((0x3F8 + 1, 0x00));
    r.push((0x3F8 + 3, 0x80));
    r.push((0x3F8 + 0, 0x03));
    r.push((0x3F8 + 1, 0x00));
    r.push((0x3F8 + 3, 0x03));
    r.push((0x3F8 + 2, 0xC7));
    r.push((0x3F8 + 4, 0x0B));
    r.push((0x3F8 + 1, 0x01));
    assert(r@ =~= seq![
        (0x3F9u16, 0x00u8),
        (0x3FBu16, 0x80u8),
        (0x3F8u16, 0x03u8),
        (0x3F9u16, 0x00u8),
        (0x3FBu16, 0x03u8),
        (0x3FAu16, 0xC7u8),
        (0x3FCu16, 0x0Bu8),
        (0x3F9u16, 0x01u8),
    ]);
    r
}

/// Exception table law: each CPU exception vector leads to its report, and
/// exactly the vectors 0x8, 0xA, 0xB, 0xC, 0xD, 0xE, 0x11 and 0x1E carry an
/// error code.
pub proof fn law_exception_table(interrupt: usize)
    ensures
        action_of(0x0) == (InterruptAction::Exception { name: "Divide by zero exception", error_code: false }),
        action_of(0x1) == (InterruptAction::Exception { name: "Debug exception", error_code: false }),
        action_of(0x2) == (InterruptAction::Exception { name: "Non-maskable interrupt", error_code: false }),
        action_of(0x3) == (InterruptAction::Exception { name: "Breakpoint exception", error_code: false }),
        action_of(0x4) == (InterruptAction::Exception { name: "Overflow exception", error_code: false }),
        action_of(0x5) == (InterruptAction::Exception { name: "Bound range exceeded exception", error_code: false }),
        action_of(0x6) == (InterruptAction::Exception { name: "Invalid opcode exception", error_code: false }),
        action_of(0x7) == (InterruptAction::Exception { name: "Device not available exception", error_code: false }),
        action_of(0x8) == (InterruptAction::Exception { name: "Double fault", error_code: true }),
        action_of(0xA) == (InterruptAction::Exception { name: "Invalid TSS exception", error_code: true }),
        action_of(0xB) == (InterruptAction::Exception { name: "Segment not present exception", error_code: true }),
        action_of(0xC) == (InterruptAction::Exception { name: "Stack-segment fault", error_code: true }),
        action_of(0xD) == (InterruptAction::Exception { name: "General protection fault", error_code: true }),
        action_of(0xE) == (InterruptAction::Exception { name: "Page fault", error_code: true }),
        action_of(0x10) == (InterruptAction::Exception { name: "x87 floating-point exception", error_code: false }),
        action_of(0x11) == (InterruptAction::Exception { name: "Alignment check exception", error_code: true }),
        action_of(0x12) == (InterruptAction::Exception { name: "Machine check exception", error_code: false }),
        action_of(0x13) == (InterruptAction::Exception { name: "SIMD floating-point exception", error_code: false }),
        action_of(0x14) == (InterruptAction::Exception { name: "Virtualization exception", error_code: false }),
        action_of(0x1E) == (InterruptAction::Exception { name: "Security exception", error_code: true }),
        (action_of(interrupt) matches InterruptAction::Exception { error_code: true, .. }) <==> (
        interrupt == 0x8 || interrupt == 0xA || interrupt == 0xB || interrupt == 0xC || interrupt
            == 0xD || interrupt == 0xE || interrupt == 0x11 || interrupt == 0x1E),
{
}

} // verus!
