//! The mathematical semantics of guest execution.
//!
//! A [`Machine`] is everything a guest function can observe or change: its
//! registers, its linear memory, the handle table's slots, the scheduler's
//! interval, and the history of timer commands. [`run_instrs`] says exactly
//! what running a body does to a machine, instruction by instruction; the
//! runtime's executable interpreter is proved against it.
//!
//! The one source of nondeterminism is the timer's reported state, which the
//! timer capability may change at any time: a run is therefore parameterised
//! over the sequence `reads` of states the guest would observe, consumed one
//! per `get_timer_state`. Everything else — including which handle an attach
//! yields — is a function of the machine and the process list.

use vstd::prelude::*;

use crate::error::Trap;
use crate::handles::{spec_attach, spec_detach, spec_get_module, spec_read_mem, Slot};
use crate::process::Process;
use crate::program::{GuestProgram, Instr, REGISTER_COUNT};
use crate::sched::{next_interval, DEFAULT_TICK_INTERVAL_NANOS};
use crate::timer::{Event, TimerState};

verus! {

/// The observable state of a guest instance and the world it acts on.
#[verifier::ext_equal]
pub struct Machine {
    /// The virtual registers, `REGISTER_COUNT` of them.
    pub regs: Seq<u64>,
    /// The linear memory.
    pub mem: Seq<u8>,
    /// The handle table's slots.
    pub slots: Seq<Slot>,
    /// The scheduler's tick interval, in nanoseconds.
    pub interval: u64,
    /// The timer commands issued so far, oldest first.
    pub events: Seq<Event>,
}

/// What one instruction did: the machine after it, the trap it raised if any,
/// whether it returned early, and how many timer-state reads it consumed.
#[verifier::ext_equal]
pub struct StepOut {
    pub m: Machine,
    pub trap: Option<Trap>,
    pub ret: bool,
    pub reads: int,
}

/// What a whole body did.
#[verifier::ext_equal]
pub struct RunOut {
    pub m: Machine,
    pub trap: Option<Trap>,
}

/// Whether `(ptr, len)` lies within the linear memory.
pub open spec fn mem_ok(mem: Seq<u8>, ptr: u32, len: u32) -> bool {
    ptr + len <= mem.len()
}

/// Whether `r` names a register.
pub open spec fn reg_ok(r: u8) -> bool {
    r < REGISTER_COUNT
}

/// The bytes at `(ptr, len)` of the linear memory.
pub open spec fn mem_slice(mem: Seq<u8>, ptr: u32, len: u32) -> Seq<u8> {
    mem.subrange(ptr as int, ptr as int + len as int)
}

/// The linear memory with `bytes` written at `ptr`.
pub open spec fn mem_write(mem: Seq<u8>, ptr: int, bytes: Seq<u8>) -> Seq<u8> {
    mem.subrange(0, ptr) + bytes + mem.subrange(ptr + bytes.len(), mem.len() as int)
}

/// The machine a fresh guest instance starts from: zeroed registers, the
/// program's initial memory image, no attachments, the default tick rate, and
/// whatever history the injected timer already carries.
pub open spec fn initial_machine(prog: GuestProgram, events0: Seq<Event>) -> Machine {
    Machine {
        regs: Seq::new(REGISTER_COUNT as nat, |i: int| 0u64),
        mem: prog.memory@,
        slots: Seq::empty(),
        interval: DEFAULT_TICK_INTERVAL_NANOS,
        events: events0,
    }
}

/// An unchanged machine, no trap, no return.
pub open spec fn step_done(m: Machine) -> StepOut {
    StepOut { m, trap: None, ret: false, reads: 0 }
}

/// A trap: the machine is left as it stood when the fault was found.
pub open spec fn step_trap(m: Machine, t: Trap) -> StepOut {
    StepOut { m, trap: Some(t), ret: false, reads: 0 }
}

/// What one instruction does to the machine. Register operands are checked
/// first (`Trap::BadRegister`), then memory ranges (`Trap::MemoryOutOfBounds`),
/// then the instruction acts as its documentation in
/// [`Instr`](crate::program::Instr) says.
pub open spec fn step_instr(
    procs: Seq<Process>,
    m: Machine,
    instr: Instr,
    reads: Seq<TimerState>,
) -> StepOut {
    match instr {
        Instr::SetReg { dst, value } => if !reg_ok(dst) {
            step_trap(m, Trap::BadRegister)
        } else {
            step_done(Machine { regs: m.regs.update(dst as int, value), ..m })
        },
        Instr::AddImm { dst, src, imm } => if !reg_ok(dst) || !reg_ok(src) {
            step_trap(m, Trap::BadRegister)
        } else {
            let v = vstd::wrapping::u64_specs::wrapping_add(m.regs[src as int], imm);
            step_done(Machine { regs: m.regs.update(dst as int, v), ..m })
        },
        Instr::CmpEqImm { dst, src, imm } => if !reg_ok(dst) || !reg_ok(src) {
            step_trap(m, Trap::BadRegister)
        } else {
            let v: u64 = if m.regs[src as int] == imm {
                1
            } else {
                0
            };
            step_done(Machine { regs: m.regs.update(dst as int, v), ..m })
        },
        Instr::ReturnIfZero { src } => if !reg_ok(src) {
            step_trap(m, Trap::BadRegister)
        } else {
            StepOut { m, trap: None, ret: m.regs[src as int] == 0, reads: 0 }
        },
        Instr::Load8 { dst, ptr } => if !reg_ok(dst) {
            step_trap(m, Trap::BadRegister)
        } else if !(ptr < m.mem.len()) {
            step_trap(m, Trap::MemoryOutOfBounds)
        } else {
            step_done(Machine { regs: m.regs.update(dst as int, m.mem[ptr as int] as u64), ..m })
        },
        Instr::PrintMessage { ptr, len } => if !mem_ok(m.mem, ptr, len) {
            step_trap(m, Trap::MemoryOutOfBounds)
        } else {
            step_done(m)
        },
        Instr::Attach { ptr, len, dst } => if !reg_ok(dst) {
            step_trap(m, Trap::BadRegister)
        } else if !mem_ok(m.mem, ptr, len) {
            step_trap(m, Trap::MemoryOutOfBounds)
        } else {
            let r = spec_attach(m.slots, procs, mem_slice(m.mem, ptr, len));
            step_done(
                Machine { regs: m.regs.update(dst as int, r.1), slots: r.0, ..m },
            )
        },
        Instr::Detach { src } => if !reg_ok(src) {
            step_trap(m, Trap::BadRegister)
        } else {
            step_done(Machine { slots: spec_detach(m.slots, m.regs[src as int]), ..m })
        },
        Instr::GetModule { handle, ptr, len, dst } => if !reg_ok(handle) || !reg_ok(dst) {
            step_trap(m, Trap::BadRegister)
        } else if !mem_ok(m.mem, ptr, len) {
            step_trap(m, Trap::MemoryOutOfBounds)
        } else {
            let b = spec_get_module(
                m.slots,
                procs,
                m.regs[handle as int],
                mem_slice(m.mem, ptr, len),
            );
            step_done(Machine { regs: m.regs.update(dst as int, b), ..m })
        },
        Instr::ReadMem { handle, addr, buf_ptr, buf_len, dst } => if !reg_ok(handle) || !reg_ok(
            addr,
        ) || !reg_ok(dst) {
            step_trap(m, Trap::BadRegister)
        } else if !mem_ok(m.mem, buf_ptr, buf_len) {
            step_trap(m, Trap::MemoryOutOfBounds)
        } else {
            match spec_read_mem(
                m.slots,
                procs,
                m.regs[handle as int],
                m.regs[addr as int] as int,
                buf_len as int,
            ) {
                Some(bytes) => step_done(
                    Machine {
                        regs: m.regs.update(dst as int, 1),
                        mem: mem_write(m.mem, buf_ptr as int, bytes),
                        ..m
                    },
                ),
                None => step_done(Machine { regs: m.regs.update(dst as int, 0), ..m }),
            }
        },
        Instr::Start => step_done(Machine { events: m.events.push(Event::Start), ..m }),
        Instr::Split => step_done(Machine { events: m.events.push(Event::Split), ..m }),
        Instr::Reset => step_done(Machine { events: m.events.push(Event::Reset), ..m }),
        Instr::PauseGameTime => step_done(
            Machine { events: m.events.push(Event::PauseGameTime), ..m },
        ),
        Instr::ResumeGameTime => step_done(
            Machine { events: m.events.push(Event::ResumeGameTime), ..m },
        ),
        Instr::SetTickRate { millihertz } => step_done(
            Machine { interval: next_interval(m.interval, millihertz), ..m },
        ),
        Instr::SetVariable { key_ptr, key_len, value_ptr, value_len } => if !mem_ok(
            m.mem,
            key_ptr,
            key_len,
        ) || !mem_ok(m.mem, value_ptr, value_len) {
            step_trap(m, Trap::MemoryOutOfBounds)
        } else {
            step_done(
                Machine {
                    events: m.events.push(
                        Event::SetVariable(
                            mem_slice(m.mem, key_ptr, key_len),
                            mem_slice(m.mem, value_ptr, value_len),
                        ),
                    ),
                    ..m
                },
            )
        },
        Instr::SetGameTime { nanos } => step_done(
            Machine { events: m.events.push(Event::SetGameTime(nanos as int)), ..m },
        ),
        Instr::GetTimerState { dst } => if !reg_ok(dst) {
            step_trap(m, Trap::BadRegister)
        } else {
            StepOut {
                m: Machine { regs: m.regs.update(dst as int, reads[0].spec_encode() as u64), ..m },
                trap: None,
                ret: false,
                reads: 1,
            }
        },
    }
}

/// What running a straight-line body does: instructions act in order until
/// one traps or returns early. Timer commands are therefore appended to the
/// history exactly in guest call order.
pub open spec fn run_instrs(
    procs: Seq<Process>,
    m: Machine,
    body: Seq<Instr>,
    reads: Seq<TimerState>,
) -> RunOut
    decreases body.len(),
{
    if body.len() == 0 {
        RunOut { m, trap: None }
    } else {
        let s = step_instr(procs, m, body[0], reads);
        if s.trap is Some {
            RunOut { m: s.m, trap: s.trap }
        } else if s.ret {
            RunOut { m: s.m, trap: None }
        } else {
            run_instrs(procs, s.m, body.skip(1), reads.skip(s.reads))
        }
    }
}

/// One instruction never rewrites history: it appends at most one command.
proof fn lemma_step_extends_events(
    procs: Seq<Process>,
    m: Machine,
    instr: Instr,
    reads: Seq<TimerState>,
)
    ensures
        ({
            let s = step_instr(procs, m, instr, reads);
            &&& s.m.events.len() >= m.events.len()
            &&& s.m.events.subrange(0, m.events.len() as int) == m.events
        }),
{
    let s = step_instr(procs, m, instr, reads);
    assert(s.m.events.subrange(0, m.events.len() as int) =~= m.events);
}

/// A run never rewrites history: whatever a guest function does, the timer
/// commands already issued stay, in their order, a prefix of the history, and
/// the commands of the run follow them. Over any finite sequence of steps the
/// history is therefore exactly the concatenation, in order, of what each
/// step issued.
pub proof fn lemma_run_extends_events(
    procs: Seq<Process>,
    m: Machine,
    body: Seq<Instr>,
    reads: Seq<TimerState>,
)
    ensures
        ({
            let out = run_instrs(procs, m, body, reads);
            &&& out.m.events.len() >= m.events.len()
            &&& out.m.events.subrange(0, m.events.len() as int) == m.events
        }),
    decreases body.len(),
{
    if body.len() == 0 {
    } else {
        let s = step_instr(procs, m, body[0], reads);
        lemma_step_extends_events(procs, m, body[0], reads);
        if s.trap is Some || s.ret {
        } else {
            lemma_run_extends_events(procs, s.m, body.skip(1), reads.skip(s.reads));
            let out = run_instrs(procs, s.m, body.skip(1), reads.skip(s.reads));
            assert(out.m.events.subrange(0, m.events.len() as int) =~= m.events);
        }
    }
}

/// Guest execution never reads the command history: two machines that differ
/// only in it run identically, appending the same commands after their
/// respective histories.
proof fn lemma_run_ignores_history(
    procs: Seq<Process>,
    m: Machine,
    e0: Seq<Event>,
    e1: Seq<Event>,
    body: Seq<Instr>,
    reads: Seq<TimerState>,
)
    ensures
        ({
            let a = run_instrs(procs, Machine { events: e0, ..m }, body, reads);
            let b = run_instrs(procs, Machine { events: e1, ..m }, body, reads);
            &&& a.trap == b.trap
            &&& a.m.regs == b.m.regs
            &&& a.m.mem == b.m.mem
            &&& a.m.slots == b.m.slots
            &&& a.m.interval == b.m.interval
            &&& e0.len() <= a.m.events.len()
            &&& e1.len() <= b.m.events.len()
            &&& a.m.events.skip(e0.len() as int) == b.m.events.skip(e1.len() as int)
        }),
    decreases body.len(),
{
    let ma = Machine { events: e0, ..m };
    let mb = Machine { events: e1, ..m };
    if body.len() == 0 {
        assert(e0.skip(e0.len() as int) =~= e1.skip(e1.len() as int));
    } else {
        let sa = step_instr(procs, ma, body[0], reads);
        let sb = step_instr(procs, mb, body[0], reads);
        lemma_step_extends_events(procs, ma, body[0], reads);
        lemma_step_extends_events(procs, mb, body[0], reads);
        assert(sa.trap == sb.trap && sa.ret == sb.ret && sa.reads == sb.reads && sa.m.regs
            == sb.m.regs && sa.m.mem == sb.m.mem && sa.m.slots == sb.m.slots && sa.m.interval
            == sb.m.interval && sa.m.events.skip(e0.len() as int) =~= sb.m.events.skip(
            e1.len() as int,
        ));
        if sa.trap is Some || sa.ret {
        } else {
            assert(sb.m =~= Machine { events: sb.m.events, ..sa.m });
            lemma_run_ignores_history(
                procs,
                sa.m,
                sa.m.events,
                sb.m.events,
                body.skip(1),
                reads.skip(sa.reads),
            );
            let a = run_instrs(procs, sa.m, body.skip(1), reads.skip(sa.reads));
            let b = run_instrs(procs, sb.m, body.skip(1), reads.skip(sb.reads));
            assert(run_instrs(procs, Machine { events: sa.m.events, ..sa.m }, body.skip(1),
                reads.skip(sa.reads)) =~~= a);
            assert(run_instrs(procs, Machine { events: sb.m.events, ..sa.m }, body.skip(1),
                reads.skip(sa.reads)) =~~= b);
            lemma_run_extends_events(procs, sa.m, body.skip(1), reads.skip(sa.reads));
            lemma_run_extends_events(procs, sb.m, body.skip(1), reads.skip(sb.reads));
            let d = sa.m.events.skip(e0.len() as int);
            assert(a.m.events.skip(e0.len() as int) =~= d + a.m.events.skip(
                sa.m.events.len() as int,
            ));
            assert(b.m.events.skip(e1.len() as int) =~= sb.m.events.skip(e1.len() as int)
                + b.m.events.skip(sb.m.events.len() as int));
        }
    }
}

/// The timer commands a guest function issues are exactly the in-guest call
/// order of the run, appended after whatever history the timer already held —
/// the same commands whatever that history was. Over any finite sequence of
/// steps the history is therefore the concatenation, in order, of what each
/// step issued from an empty start.
pub proof fn lemma_run_events_are_call_order(
    procs: Seq<Process>,
    m: Machine,
    body: Seq<Instr>,
    reads: Seq<TimerState>,
)
    ensures
        ({
            let out = run_instrs(procs, m, body, reads);
            let fresh = run_instrs(procs, Machine { events: Seq::empty(), ..m }, body, reads);
            &&& out.m.events == m.events + fresh.m.events
            &&& out.trap == fresh.trap
        }),
{
    lemma_run_ignores_history(procs, m, m.events, Seq::empty(), body, reads);
    lemma_run_extends_events(procs, m, body, reads);
    let out = run_instrs(procs, m, body, reads);
    let fresh = run_instrs(procs, Machine { events: Seq::empty(), ..m }, body, reads);
    assert(Machine { events: m.events, ..m } =~= m);
    assert(run_instrs(procs, Machine { events: m.events, ..m }, body, reads) =~~= out);
    assert(fresh.m.events.skip(0) =~= fresh.m.events);
    assert(out.m.events =~= m.events + out.m.events.skip(m.events.len() as int));
}

/// No single instruction revives a retired handle.
proof fn lemma_step_preserves_retired(
    procs: Seq<Process>,
    m: Machine,
    instr: Instr,
    reads: Seq<TimerState>,
    h: u64,
)
    requires
        crate::handles::handle_retired(m.slots, h),
    ensures
        crate::handles::handle_retired(step_instr(procs, m, instr, reads).m.slots, h),
{
    match instr {
        Instr::Attach { ptr, len, dst } => {
            if reg_ok(dst) && mem_ok(m.mem, ptr, len) {
                crate::handles::lemma_attach_preserves_retired(
                    m.slots,
                    procs,
                    mem_slice(m.mem, ptr, len),
                    h,
                );
            }
        },
        Instr::Detach { src } => {
            if reg_ok(src) {
                crate::handles::lemma_detach_preserves_retired(m.slots, m.regs[src as int], h);
            }
        },
        _ => {},
    }
}

/// No guest function revives a retired handle: once an attachment is
/// detached, its handle reports failure for the rest of the runtime's life,
/// over any sequence of steps.
pub proof fn lemma_run_preserves_retired(
    procs: Seq<Process>,
    m: Machine,
    body: Seq<Instr>,
    reads: Seq<TimerState>,
    h: u64,
)
    requires
        crate::handles::handle_retired(m.slots, h),
    ensures
        crate::handles::handle_retired(run_instrs(procs, m, body, reads).m.slots, h),
    decreases body.len(),
{
    if body.len() == 0 {
    } else {
        let s = step_instr(procs, m, body[0], reads);
        lemma_step_preserves_retired(procs, m, body[0], reads, h);
        if s.trap is Some || s.ret {
        } else {
            lemma_run_preserves_retired(procs, s.m, body.skip(1), reads.skip(s.reads), h);
        }
    }
}

} // verus!
