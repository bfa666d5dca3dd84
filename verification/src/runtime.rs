//! The runtime façade: owns the guest instance, the handle table, the
//! scheduler and the injected timer, and drives the guest exactly as the
//! semantics in [`crate::machine`] say.

use vstd::prelude::*;

use crate::error::{Error, Trap};
use crate::handles::HandleTable;
use crate::machine::{
    initial_machine, mem_slice, mem_write, run_instrs, step_instr, Machine, RunOut,
};
use crate::process::{lemma_read_bytes_len, Process};
use crate::program::{
    body_of_export, configure_export_name, configure_name, export_func, export_is_unit_fn,
    find_unit_export,
    first_unknown_import, import_views, interface_ok, update_export_name, update_name, validate,
    GuestProgram, Instr, REGISTER_COUNT,
};
use crate::sched::{spec_sleep_nanos, Scheduler};
use crate::timer::{Event, Timer, TimerState};
use crate::timespan::TimeSpan;

verus! {

/// An owned copy of a byte vector.
fn clone_bytes(v: &Vec<u8>) -> (r: Vec<u8>)
    ensures
        r@ == v@,
{
    let mut r: Vec<u8> = Vec::new();
    r.extend_from_slice(v.as_slice());
    proof {
        assert(r@ =~= v@);
    }
    r
}

/// Copies the linear-memory range `(ptr, len)` out into a fresh vector.
fn read_mem_range(mem: &Vec<u8>, ptr: u32, len: u32) -> (r: Vec<u8>)
    requires
        ptr + len <= mem@.len(),
    ensures
        r@ == mem_slice(mem@, ptr, len),
{
    let _len_bound = mem.len();
    let mut r: Vec<u8> = Vec::new();
    r.extend_from_slice(&mem.as_slice()[ptr as usize..(ptr as usize + len as usize)]);
    proof {
        assert(r@ =~= mem_slice(mem@, ptr, len));
    }
    r
}

/// Writes `bytes` into the linear memory at `ptr`.
fn write_into(mem: &mut Vec<u8>, ptr: usize, bytes: &Vec<u8>)
    requires
        ptr + bytes@.len() <= old(mem)@.len(),
    ensures
        final(mem)@ == mem_write(old(mem)@, ptr as int, bytes@),
{
    let n = bytes.len();
    let ml = mem.len();
    let mut j: usize = 0;
    while j < n
        invariant
            j <= n,
            n == bytes@.len(),
            ml == mem@.len(),
            ptr + n <= mem@.len(),
            mem@.len() == old(mem)@.len(),
            forall|i: int| 0 <= i < ptr ==> mem@[i] == old(mem)@[i],
            forall|i: int| ptr <= i < ptr + j ==> mem@[i] == bytes@[i - ptr],
            forall|i: int| ptr + j <= i < mem@.len() ==> mem@[i] == old(mem)@[i],
        decreases n - j,
    {
        mem.set(ptr + j, bytes[j]);
        j = j + 1;
    }
    proof {
        assert(mem@ =~= mem_write(old(mem)@, ptr as int, bytes@));
    }
}

/// The auto-splitter runtime an embedder owns: a validated guest instance,
/// the process handle table, the tick scheduler, and the injected timer.
///
/// One embedder thread drives it by alternating [`Runtime::step`] and a wait
/// of [`Runtime::sleep_nanos`]; the guest executes inline during `step`.
/// Dropping the runtime releases the guest, the table and every attachment.
#[derive(Debug)]
pub struct Runtime<T: Timer> {
    program: GuestProgram,
    configure_fn: usize,
    update_fn: usize,
    regs: Vec<u64>,
    memory: Vec<u8>,
    table: HandleTable,
    processes: Vec<Process>,
    sched: Scheduler,
    timer: T,
}

impl<T: Timer> Runtime<T> {
    /// The machine this runtime currently embodies.
    pub closed spec fn machine(&self) -> Machine {
        Machine {
            regs: self.regs@,
            mem: self.memory@,
            slots: self.table.slots(),
            interval: self.sched.interval(),
            events: self.timer.history(),
        }
    }

    /// The timer capability, as a value.
    pub closed spec fn spec_timer(&self) -> T {
        self.timer
    }

    /// The process list the runtime currently sees.
    pub closed spec fn spec_processes(&self) -> Seq<Process> {
        self.processes@
    }

    /// The loaded guest program.
    pub closed spec fn spec_program(&self) -> GuestProgram {
        self.program
    }

    /// When the last step began, if one has.
    pub closed spec fn sched_last(&self) -> Option<u64> {
        self.sched.last()
    }

    /// The body of the guest's `update` export.
    pub open spec fn update_body(&self) -> Seq<Instr> {
        body_of_export(self.spec_program(), update_name())
    }

    /// The timer commands issued so far, oldest first.
    pub open spec fn history(&self) -> Seq<Event> {
        self.machine().events
    }

    pub closed spec fn wf(&self) -> bool {
        &&& self.regs@.len() == REGISTER_COUNT
        &&& self.table.wf()
        &&& self.sched.wf()
        &&& interface_ok(self.program)
        &&& Some(self.configure_fn) == export_func(self.program, configure_name())
        &&& Some(self.update_fn) == export_func(self.program, update_name())
    }

    /// Everything `step` leaves alone: the program, the process list and the
    /// export bindings.
    pub closed spec fn same_frame(&self, other: &Self) -> bool {
        &&& self.program == other.program
        &&& self.processes == other.processes
        &&& self.configure_fn == other.configure_fn
        &&& self.update_fn == other.update_fn
    }

    /// Runs one instruction, returning the trap it raised, whether it asked
    /// to return early, and the timer states it observed.
    fn exec_instr(&mut self, instr: Instr) -> (r: (Option<Trap>, bool, Ghost<Seq<TimerState>>))
        requires
            old(self).wf(),
        ensures
            final(self).wf(),
            final(self).same_frame(old(self)),
            final(self).sched_last() == old(self).sched_last(),
            ({
                let s = step_instr(old(self).spec_processes(), old(self).machine(), instr, r.2@);
                &&& s.m == final(self).machine()
                &&& s.trap == r.0
                &&& s.ret == r.1
                &&& s.reads == r.2@.len()
            }),
    {
        let ghost m0 = old(self).machine();
        let ghost procs = old(self).spec_processes();
        let none: Ghost<Seq<TimerState>> = Ghost(Seq::empty());
        match instr {
            Instr::SetReg { dst, value } => {
                if !((dst as usize) < REGISTER_COUNT) {
                    return (Some(Trap::BadRegister), false, none);
                }
                self.regs.set(dst as usize, value);
                proof {
                    assert(self.machine() =~= step_instr(procs, m0, instr, none@).m);
                }
                (None, false, none)
            },
            Instr::AddImm { dst, src, imm } => {
                if !((dst as usize) < REGISTER_COUNT) || !((src as usize) < REGISTER_COUNT) {
                    return (Some(Trap::BadRegister), false, none);
                }
                let v = self.regs[src as usize].wrapping_add(imm);
                self.regs.set(dst as usize, v);
                proof {
                    assert(self.machine() =~= step_instr(procs, m0, instr, none@).m);
                }
                (None, false, none)
            },
            Instr::CmpEqImm { dst, src, imm } => {
                if !((dst as usize) < REGISTER_COUNT) || !((src as usize) < REGISTER_COUNT) {
                    return (Some(Trap::BadRegister), false, none);
                }
                let v: u64 = if self.regs[src as usize] == imm {
                    1
                } else {
                    0
                };
                self.regs.set(dst as usize, v);
                proof {
                    assert(self.machine() =~= step_instr(procs, m0, instr, none@).m);
                }
                (None, false, none)
            },
            Instr::ReturnIfZero { src } => {
                if !((src as usize) < REGISTER_COUNT) {
                    return (Some(Trap::BadRegister), false, none);
                }
                (None, self.regs[src as usize] == 0, none)
            },
            Instr::Load8 { dst, ptr } => {
                if !((dst as usize) < REGISTER_COUNT) {
                    return (Some(Trap::BadRegister), false, none);
                }
                if !((ptr as u64) < self.memory.len() as u64) {
                    return (Some(Trap::MemoryOutOfBounds), false, none);
                }
                let v = self.memory[ptr as usize] as u64;
                self.regs.set(dst as usize, v);
                proof {
                    assert(self.machine() =~= step_instr(procs, m0, instr, none@).m);
                }
                (None, false, none)
            },
            Instr::PrintMessage { ptr, len } => {
                if !((ptr as u64) + (len as u64) <= self.memory.len() as u64) {
                    return (Some(Trap::MemoryOutOfBounds), false, none);
                }
                // The message is diagnostic only; this runtime has no log sink.
                (None, false, none)
            },
            Instr::Attach { ptr, len, dst } => {
                if !((dst as usize) < REGISTER_COUNT) {
                    return (Some(Trap::BadRegister), false, none);
                }
                if !((ptr as u64) + (len as u64) <= self.memory.len() as u64) {
                    return (Some(Trap::MemoryOutOfBounds), false, none);
                }
                let name = &self.memory.as_slice()[ptr as usize..(ptr as usize + len as usize)];
                let h = self.table.attach(&self.processes, name);
                self.regs.set(dst as usize, h);
                proof {
                    assert(self.machine() =~= step_instr(procs, m0, instr, none@).m);
                }
                (None, false, none)
            },
            Instr::Detach { src } => {
                if !((src as usize) < REGISTER_COUNT) {
                    return (Some(Trap::BadRegister), false, none);
                }
                let h = self.regs[src as usize];
                self.table.detach(h);
                proof {
                    assert(self.machine() =~= step_instr(procs, m0, instr, none@).m);
                }
                (None, false, none)
            },
            Instr::GetModule { handle, ptr, len, dst } => {
                if !((handle as usize) < REGISTER_COUNT) || !((dst as usize) < REGISTER_COUNT) {
                    return (Some(Trap::BadRegister), false, none);
                }
                if !((ptr as u64) + (len as u64) <= self.memory.len() as u64) {
                    return (Some(Trap::MemoryOutOfBounds), false, none);
                }
                let h = self.regs[handle as usize];
                let name = &self.memory.as_slice()[ptr as usize..(ptr as usize + len as usize)];
                let b = self.table.get_module(&self.processes, h, name);
                self.regs.set(dst as usize, b);
                proof {
                    assert(self.machine() =~= step_instr(procs, m0, instr, none@).m);
                }
                (None, false, none)
            },
            Instr::ReadMem { handle, addr, buf_ptr, buf_len, dst } => {
                if !((handle as usize) < REGISTER_COUNT) || !((addr as usize) < REGISTER_COUNT)
                    || !((dst as usize) < REGISTER_COUNT) {
                    return (Some(Trap::BadRegister), false, none);
                }
                if !((buf_ptr as u64) + (buf_len as u64) <= self.memory.len() as u64) {
                    return (Some(Trap::MemoryOutOfBounds), false, none);
                }
                let h = self.regs[handle as usize];
                let a = self.regs[addr as usize];
                match self.table.read_mem(&self.processes, h, a, buf_len as usize) {
                    Some(bytes) => {
                        proof {
                            lemma_read_bytes_len_for(
                                self.table.slots(),
                                procs,
                                h,
                                a as int,
                                buf_len as int,
                            );
                        }
                        write_into(&mut self.memory, buf_ptr as usize, &bytes);
                        self.regs.set(dst as usize, 1);
                        proof {
                            assert(self.machine() =~= step_instr(procs, m0, instr, none@).m);
                        }
                        (None, false, none)
                    },
                    None => {
                        self.regs.set(dst as usize, 0);
                        proof {
                            assert(self.machine() =~= step_instr(procs, m0, instr, none@).m);
                        }
                        (None, false, none)
                    },
                }
            },
            Instr::Start => {
                self.timer.start();
                proof {
                    assert(self.machine() =~= step_instr(procs, m0, instr, none@).m);
                }
                (None, false, none)
            },
            Instr::Split => {
                self.timer.split();
                proof {
                    assert(self.machine() =~= step_instr(procs, m0, instr, none@).m);
                }
                (None, false, none)
            },
            Instr::Reset => {
                self.timer.reset();
                proof {
                    assert(self.machine() =~= step_instr(procs, m0, instr, none@).m);
                }
                (None, false, none)
            },
            Instr::PauseGameTime => {
                self.timer.pause_game_time();
                proof {
                    assert(self.machine() =~= step_instr(procs, m0, instr, none@).m);
                }
                (None, false, none)
            },
            Instr::ResumeGameTime => {
                self.timer.resume_game_time();
                proof {
                    assert(self.machine() =~= step_instr(procs, m0, instr, none@).m);
                }
                (None, false, none)
            },
            Instr::SetTickRate { millihertz } => {
                self.sched.set_tick_rate(millihertz);
                proof {
                    assert(self.machine() =~= step_instr(procs, m0, instr, none@).m);
                }
                (None, false, none)
            },
            Instr::SetVariable { key_ptr, key_len, value_ptr, value_len } => {
                if !((key_ptr as u64) + (key_len as u64) <= self.memory.len() as u64) || !((
                value_ptr as u64) + (value_len as u64) <= self.memory.len() as u64) {
                    return (Some(Trap::MemoryOutOfBounds), false, none);
                }
                let key = read_mem_range(&self.memory, key_ptr, key_len);
                let value = read_mem_range(&self.memory, value_ptr, value_len);
                self.timer.set_variable(key, value);
                proof {
                    assert(self.machine() =~= step_instr(procs, m0, instr, none@).m);
                }
                (None, false, none)
            },
            Instr::SetGameTime { nanos } => {
                self.timer.set_game_time(TimeSpan::from_nanoseconds(nanos));
                proof {
                    assert(self.machine() =~= step_instr(procs, m0, instr, none@).m);
                }
                (None, false, none)
            },
            Instr::GetTimerState { dst } => {
                if !((dst as usize) < REGISTER_COUNT) {
                    return (Some(Trap::BadRegister), false, none);
                }
                let st = self.timer.state();
                let ghost reads: Seq<TimerState> = seq![st];
                self.regs.set(dst as usize, st.encode() as u64);
                proof {
                    assert(self.machine() =~= step_instr(procs, m0, instr, reads).m);
                }
                (None, false, Ghost(reads))
            },
        }
    }

    /// Runs one guest function to completion, early return, or trap.
    fn run_function(&mut self, fi: usize) -> (r: Result<(), Trap>)
        requires
            old(self).wf(),
            fi < old(self).spec_program().functions@.len(),
        ensures
            final(self).wf(),
            final(self).same_frame(old(self)),
            final(self).sched_last() == old(self).sched_last(),
            exists|reads: Seq<TimerState>|
                #![trigger run_instrs(
                    old(self).spec_processes(),
                    old(self).machine(),
                    old(self).spec_program().functions@[fi as int].body@,
                    reads,
                )]
                {
                    let out = run_instrs(
                        old(self).spec_processes(),
                        old(self).machine(),
                        old(self).spec_program().functions@[fi as int].body@,
                        reads,
                    );
                    &&& final(self).machine() == out.m
                    &&& (r is Ok <==> out.trap is None)
                    &&& (r matches Err(t) ==> out.trap == Some(t))
                },
    {
        let ghost m0 = old(self).machine();
        let ghost procs = old(self).spec_processes();
        let ghost body = old(self).spec_program().functions@[fi as int].body@;
        let n = self.program.functions[fi].body.len();
        let mut k: usize = 0;
        let ghost mut witness: Seq<TimerState> = Seq::empty();
        proof {
            assert(body.skip(0) =~= body);
            assert forall|rest: Seq<TimerState>|
                run_instrs(procs, m0, body, #[trigger] (witness + rest)) == run_instrs(
                    procs,
                    self.machine(),
                    body.skip(k as int),
                    rest,
                ) by {
                assert(witness + rest =~= rest);
            }
        }
        while k < n
            invariant
                k <= n,
                n == body.len(),
                self.wf(),
                self.same_frame(old(self)),
                self.sched_last() == old(self).sched_last(),
                body == old(self).spec_program().functions@[fi as int].body@,
                fi < self.spec_program().functions@.len(),
                procs == self.spec_processes(),
                m0 == old(self).machine(),
                forall|rest: Seq<TimerState>|
                    run_instrs(procs, m0, body, #[trigger] (witness + rest)) == run_instrs(
                        procs,
                        self.machine(),
                        body.skip(k as int),
                        rest,
                    ),
            decreases n - k,
        {
            let f = &self.program.functions[fi];
            let instr = f.body[k];
            let ghost mk = self.machine();
            let ghost w0 = witness;
            let (trap, ret, g) = self.exec_instr(instr);
            proof {
                witness = witness + g@;
            }
            let ghost s = step_instr(procs, mk, instr, g@);
            let ghost tail = body.skip(k as int);
            proof {
                assert(tail[0] == body[k as int]);
                assert(tail.skip(1) =~= body.skip(k as int + 1));
            }
            if let Some(t) = trap {
                proof {
                    lemma_step_reads_extend(procs, mk, instr, g@, Seq::empty());
                    assert(g@ + Seq::<TimerState>::empty() =~= g@);
                    assert(run_instrs(procs, mk, tail, g@) == RunOut { m: s.m, trap: s.trap });
                    assert(run_instrs(procs, m0, body, w0 + g@) == RunOut {
                        m: self.machine(),
                        trap: Some(t),
                    });
                    assert(witness =~= w0 + g@);
                    assert(run_instrs(procs, m0, body, witness) == RunOut {
                        m: self.machine(),
                        trap: Some(t),
                    });
                    assert(run_instrs(
                        old(self).spec_processes(),
                        old(self).machine(),
                        old(self).spec_program().functions@[fi as int].body@,
                        witness,
                    ) == RunOut { m: self.machine(), trap: Some(t) });
                }
                return Err(t);
            }
            if ret {
                proof {
                    lemma_step_reads_extend(procs, mk, instr, g@, Seq::empty());
                    assert(g@ + Seq::<TimerState>::empty() =~= g@);
                    assert(run_instrs(procs, mk, tail, g@) == RunOut {
                        m: s.m,
                        trap: None::<Trap>,
                    });
                    assert(run_instrs(procs, m0, body, w0 + g@) == RunOut {
                        m: self.machine(),
                        trap: None::<Trap>,
                    });
                    assert(witness =~= w0 + g@);
                    assert(run_instrs(
                        old(self).spec_processes(),
                        old(self).machine(),
                        old(self).spec_program().functions@[fi as int].body@,
                        witness,
                    ) == RunOut { m: self.machine(), trap: None::<Trap> });
                }
                return Ok(());
            }
            proof {
                let mnext = self.machine();
                assert forall|rest: Seq<TimerState>|
                    run_instrs(procs, m0, body, #[trigger] (witness + rest)) == run_instrs(
                        procs,
                        mnext,
                        body.skip(k as int + 1),
                        rest,
                    ) by {
                    lemma_step_reads_extend(procs, mk, instr, g@, rest);
                    assert(witness + rest =~= w0 + (g@ + rest));
                    assert(run_instrs(procs, m0, body, w0 + (g@ + rest)) == run_instrs(
                        procs,
                        mk,
                        tail,
                        g@ + rest,
                    ));
                    assert(run_instrs(procs, mk, tail, g@ + rest) == run_instrs(
                        procs,
                        s.m,
                        tail.skip(1),
                        (g@ + rest).skip(g@.len() as int),
                    ));
                }
            }
            k = k + 1;
        }
        proof {
            assert(body.skip(n as int) =~= Seq::<Instr>::empty());
            assert(witness + Seq::<TimerState>::empty() =~= witness);
            assert(run_instrs(
                old(self).spec_processes(),
                old(self).machine(),
                old(self).spec_program().functions@[fi as int].body@,
                witness,
            ) == RunOut { m: self.machine(), trap: None::<Trap> });
        }
        Ok(())
    }

    /// Loads a guest: validates the program against the host ABI and the
    /// required interface, instantiates it over `processes` with the injected
    /// `timer`, and invokes its `configure` export exactly once.
    ///
    /// On failure the timer comes back alongside the error — no partially
    /// constructed runtime remains observable. An import that names no host
    /// symbol yields `UnknownHostFunction` with that name; a missing or
    /// ill-typed `configure` or `update` yields `InvalidInterface`; a trap
    /// while `configure` ran yields `EngineError`, with the timer carrying
    /// exactly the commands issued before the trap.
    pub fn new(program: GuestProgram, timer: T, processes: Vec<Process>) -> (r: Result<
        Runtime<T>,
        (Error, T),
    >)
        ensures
            first_unknown_import(import_views(program)) matches Some(bad) ==> (r matches Err(p)
                && p.0 matches Error::UnknownHostFunction(m) && m@ == bad && p.1.history()
                == timer.history()),
            first_unknown_import(import_views(program)) is None && !interface_ok(program) ==> (r
                matches Err(p) && p.0 == Error::InvalidInterface && p.1.history()
                == timer.history()),
            first_unknown_import(import_views(program)) is None && interface_ok(program)
                ==> exists|reads: Seq<TimerState>|
                #![trigger run_instrs(
                    processes@,
                    initial_machine(program, timer.history()),
                    body_of_export(program, configure_name()),
                    reads,
                )]
                {
                    let out = run_instrs(
                        processes@,
                        initial_machine(program, timer.history()),
                        body_of_export(program, configure_name()),
                        reads,
                    );
                    &&& (out.trap matches Some(t) ==> (r matches Err(p) && p.0
                        == Error::EngineError(t) && p.1.history() == out.m.events))
                    &&& (out.trap is None ==> (r matches Ok(rt) && rt.wf() && rt.machine()
                        == out.m && rt.spec_processes() == processes@ && rt.spec_program()
                        == program && rt.sched_last() is None))
                },
    {
        match validate(&program) {
            Err(e) => {
                return Err((e, timer));
            },
            Ok(()) => {},
        }
        let cname = configure_export_name();
        let uname = update_export_name();
        let configure_fn = match find_unit_export(&program, cname.as_slice()) {
            Some(f) => f,
            None => {
                return Err((Error::InvalidInterface, timer));
            },
        };
        let update_fn = match find_unit_export(&program, uname.as_slice()) {
            Some(f) => f,
            None => {
                return Err((Error::InvalidInterface, timer));
            },
        };
        let memory = clone_bytes(&program.memory);
        let regs: Vec<u64> = vec![0u64; REGISTER_COUNT];
        let mut rt = Runtime {
            program,
            configure_fn,
            update_fn,
            regs,
            memory,
            table: HandleTable::new(),
            processes,
            sched: Scheduler::new(),
            timer,
        };
        let ghost mid = rt;
        proof {
            assert(rt.machine() =~= initial_machine(program, timer.history()));
            assert(export_is_unit_fn(rt.program, configure_name()));
        }
        let cf = rt.configure_fn;
        let r0 = rt.run_function(cf);
        proof {
            let reads = choose|reads: Seq<TimerState>|
                #![trigger run_instrs(
                    mid.spec_processes(),
                    mid.machine(),
                    mid.spec_program().functions@[cf as int].body@,
                    reads,
                )]
                {
                    let out = run_instrs(
                        mid.spec_processes(),
                        mid.machine(),
                        mid.spec_program().functions@[cf as int].body@,
                        reads,
                    );
                    &&& rt.machine() == out.m
                    &&& (r0 is Ok <==> out.trap is None)
                    &&& (r0 matches Err(t) ==> out.trap == Some(t))
                };
            assert(body_of_export(program, configure_name())
                == mid.spec_program().functions@[cf as int].body@);
            assert(run_instrs(
                processes@,
                initial_machine(program, timer.history()),
                body_of_export(program, configure_name()),
                reads,
            ) == run_instrs(
                mid.spec_processes(),
                mid.machine(),
                mid.spec_program().functions@[cf as int].body@,
                reads,
            ));
        }
        match r0 {
            Ok(()) => Ok(rt),
            Err(t) => {
                let tm = rt.into_timer();
                Err((Error::EngineError(t), tm))
            },
        }
    }

    /// Invokes the guest's `update` export exactly once, with the tick
    /// recorded as beginning at `now` on the embedder's clock. A trap is
    /// reported as `EngineError` and leaves the runtime usable: a later step
    /// may succeed. Timer and process operations the guest issues are
    /// delivered in guest call order, as the run semantics say.
    pub fn step(&mut self, now: u64) -> (r: Result<(), Error>)
        requires
            old(self).wf(),
        ensures
            final(self).wf(),
            final(self).spec_processes() == old(self).spec_processes(),
            final(self).spec_program() == old(self).spec_program(),
            final(self).sched_last() == Some(now),
            exists|reads: Seq<TimerState>|
                #![trigger run_instrs(
                    old(self).spec_processes(),
                    old(self).machine(),
                    old(self).update_body(),
                    reads,
                )]
                {
                    let out = run_instrs(
                        old(self).spec_processes(),
                        old(self).machine(),
                        old(self).update_body(),
                        reads,
                    );
                    &&& final(self).machine() == out.m
                    &&& (r is Ok <==> out.trap is None)
                    &&& (out.trap matches Some(t) ==> r == Err::<(), Error>(Error::EngineError(t)))
                },
    {
        self.sched.record_tick(now);
        let ghost mid = *self;
        proof {
            assert(mid.machine() =~= old(self).machine());
            assert(export_is_unit_fn(self.program, update_name()));
        }
        let uf = self.update_fn;
        let r0 = self.run_function(uf);
        proof {
            let reads = choose|reads: Seq<TimerState>|
                #![trigger run_instrs(
                    mid.spec_processes(),
                    mid.machine(),
                    mid.spec_program().functions@[uf as int].body@,
                    reads,
                )]
                {
                    let out = run_instrs(
                        mid.spec_processes(),
                        mid.machine(),
                        mid.spec_program().functions@[uf as int].body@,
                        reads,
                    );
                    &&& self.machine() == out.m
                    &&& (r0 is Ok <==> out.trap is None)
                    &&& (r0 matches Err(t) ==> out.trap == Some(t))
                };
            assert(old(self).update_body() == mid.spec_program().functions@[uf as int].body@);
            assert(run_instrs(
                old(self).spec_processes(),
                old(self).machine(),
                old(self).update_body(),
                reads,
            ) == run_instrs(
                mid.spec_processes(),
                mid.machine(),
                mid.spec_program().functions@[uf as int].body@,
                reads,
            ));
        }
        match r0 {
            Ok(()) => Ok(()),
            Err(t) => Err(Error::EngineError(t)),
        }
    }

    /// How long the embedder must still wait, at `now`, before the next tick
    /// is due: the pacer's only demand on the embedder. The interval is
    /// re-read here, so a rate change during `update` affects the very next
    /// delay.
    pub fn sleep_nanos(&self, now: u64) -> (r: u64)
        ensures
            r == spec_sleep_nanos(self.sched_last(), self.machine().interval, now),
    {
        self.sched.sleep_nanos(now)
    }

    /// Replaces the runtime's view of the operating system's process list —
    /// how an embedder reflects processes starting or exiting between steps.
    /// Attachments keep their handles; operations on a handle whose process
    /// is gone from the new list report the failure sentinel.
    pub fn set_processes(&mut self, processes: Vec<Process>)
        requires
            old(self).wf(),
        ensures
            final(self).wf(),
            final(self).machine() == old(self).machine(),
            final(self).spec_processes() == processes@,
            final(self).spec_program() == old(self).spec_program(),
            final(self).sched_last() == old(self).sched_last(),
    {
        self.processes = processes;
    }

    /// The injected timer capability, for observation.
    pub fn timer(&self) -> (r: &T)
        ensures
            *r == self.spec_timer(),
    {
        &self.timer
    }

    /// Tears the runtime down, releasing the guest and every attachment, and
    /// hands the timer capability back.
    pub fn into_timer(self) -> (r: T)
        ensures
            r == self.spec_timer(),
    {
        self.timer
    }
}

/// Two read sequences that agree on the consumed prefix drive an instruction
/// identically.
proof fn lemma_step_reads_extend(
    procs: Seq<Process>,
    m: Machine,
    instr: Instr,
    reads: Seq<TimerState>,
    rest: Seq<TimerState>,
)
    requires
        step_instr(procs, m, instr, reads).reads == reads.len(),
    ensures
        step_instr(procs, m, instr, reads + rest) == step_instr(procs, m, instr, reads),
        (reads + rest).skip(reads.len() as int) =~= rest,
{
    if reads.len() > 0 {
        assert((reads + rest)[0] == reads[0]);
    }
    assert(step_instr(procs, m, instr, reads + rest) =~~= step_instr(procs, m, instr, reads));
}

/// A helper naming [`lemma_read_bytes_len`] through the table's view.
proof fn lemma_read_bytes_len_for(
    slots: Seq<crate::handles::Slot>,
    procs: Seq<Process>,
    h: u64,
    addr: int,
    len: int,
)
    requires
        len >= 0,
    ensures
        crate::handles::spec_read_mem(slots, procs, h, addr, len) matches Some(b) ==> b.len()
            == len,
{
    if crate::handles::handle_live(slots, h) {
        match crate::process::find_process(procs, crate::handles::handle_pid(slots, h)) {
            Some(p) => {
                lemma_read_bytes_len(p.modules@, addr, len);
            },
            None => {},
        }
    }
}

} // verus!
