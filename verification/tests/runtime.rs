use livesplit_core::error::{Error, Trap};
use livesplit_core::handles::HandleTable;
use livesplit_core::process::{Process, ProcessModule};
use livesplit_core::program::{Export, GuestFunction, GuestProgram, Instr};
use livesplit_core::runtime::Runtime;
use livesplit_core::sched::Scheduler;
use livesplit_core::timer::{RecordingTimer, TimerCommand, TimerState};
use livesplit_core::timespan::TimeSpan;

fn unit_fn(body: Vec<Instr>) -> GuestFunction {
    GuestFunction { params: 0, results: 0, body }
}

fn imports(names: &[&str]) -> Vec<Vec<u8>> {
    names.iter().map(|n| n.as_bytes().to_vec()).collect()
}

fn program(
    configure: Vec<Instr>,
    update: Vec<Instr>,
    imported: Vec<Vec<u8>>,
    memory: Vec<u8>,
) -> GuestProgram {
    GuestProgram {
        imports: imported,
        exports: vec![
            Export { name: b"configure".to_vec(), func: 0 },
            Export { name: b"update".to_vec(), func: 1 },
        ],
        functions: vec![unit_fn(configure), unit_fn(update)],
        memory,
    }
}

fn fake_game() -> Process {
    let mut data = vec![0u8; 0x2001];
    data[0x2000] = 42;
    Process {
        pid: 7,
        name: b"fakegame".to_vec(),
        modules: vec![ProcessModule { name: b"fakemodule".to_vec(), base: 0x4000, data }],
    }
}

#[test]
fn basic() {
    let timer = RecordingTimer::new();
    let prog = program(
        vec![
            Instr::Start,
            Instr::Split,
            Instr::PauseGameTime,
            Instr::ResumeGameTime,
            Instr::Reset,
        ],
        vec![],
        imports(&["start", "split", "pause_game_time", "resume_game_time", "reset"]),
        vec![],
    );
    let mut runtime = Runtime::new(prog, timer, vec![]).unwrap();
    runtime.step(0).unwrap();
    assert_eq!(
        runtime.timer().commands(),
        &vec![
            TimerCommand::Start,
            TimerCommand::Split,
            TimerCommand::PauseGameTime,
            TimerCommand::ResumeGameTime,
            TimerCommand::Reset,
        ]
    );
}

#[test]
fn expose_wrong_interface() {
    // Only `configure` is exported; the loader must refuse the program.
    let prog = GuestProgram {
        imports: vec![],
        exports: vec![Export { name: b"configure".to_vec(), func: 0 }],
        functions: vec![unit_fn(vec![Instr::Start])],
        memory: vec![],
    };
    match Runtime::new(prog, RecordingTimer::new(), vec![]) {
        Err((e, timer)) => {
            assert_eq!(e, Error::InvalidInterface);
            assert!(timer.commands().is_empty());
        },
        Ok(_) => panic!("load should have failed"),
    }
}

#[test]
fn unknown_host_function() {
    let prog = program(
        vec![],
        vec![],
        imports(&["not_a_function"]),
        vec![],
    );
    match Runtime::new(prog, RecordingTimer::new(), vec![]) {
        Err((e, timer)) => {
            assert_eq!(e, Error::UnknownHostFunction(b"not_a_function".to_vec()));
            assert!(timer.commands().is_empty());
        },
        Ok(_) => panic!("load should have failed"),
    }
}

#[test]
fn rough_tick_rate() {
    // `configure` sets the rate to 50 ticks per second; on the tick where the
    // counter reaches 50, `update` doubles it to 100. Over two equal windows
    // of a simulated clock there should be about three times as many events
    // in total as in the first window alone.
    let prog = program(
        vec![Instr::SetTickRate { millihertz: 50_000 }],
        vec![
            Instr::CmpEqImm { dst: 1, src: 0, imm: 50 },
            Instr::AddImm { dst: 0, src: 0, imm: 1 },
            Instr::Split,
            Instr::ReturnIfZero { src: 1 },
            Instr::SetTickRate { millihertz: 100_000 },
        ],
        imports(&["set_tick_rate", "split"]),
        vec![],
    );
    let mut runtime = Runtime::new(prog, RecordingTimer::new(), vec![]).unwrap();
    let mut now: u64 = 0;
    let start = now;
    while now - start < 1_000_000_000 {
        now += runtime.sleep_nanos(now);
        runtime.step(now).unwrap();
    }
    let first_half = runtime.timer().commands().len();
    let start = now;
    while now - start < 1_000_000_000 {
        now += runtime.sleep_nanos(now);
        runtime.step(now).unwrap();
    }
    let total = runtime.timer().commands().len();
    // since the rate doubled after the first half, there should be ~3x more events
    let margin = 0.2;
    assert!(total < (first_half as f32 * (3.0 + margin)) as usize);
    assert!(total > (first_half as f32 * (3.0 - margin)) as usize);
}

#[test]
fn process_reading() {
    // fakegame's fakemodule holds the byte 42 at offset 0x2000; the guest
    // splits after each successful stage: attach, module lookup, read, check.
    let mut memory = b"fakegamefakemodule".to_vec();
    memory.push(0xff);
    let prog = program(
        vec![
            Instr::Attach { ptr: 0, len: 8, dst: 0 },
            Instr::ReturnIfZero { src: 0 },
            Instr::Start,
            Instr::GetModule { handle: 0, ptr: 8, len: 10, dst: 1 },
            Instr::ReturnIfZero { src: 1 },
            Instr::Split,
            Instr::AddImm { dst: 1, src: 1, imm: 0x2000 },
            Instr::ReadMem { handle: 0, addr: 1, buf_ptr: 18, buf_len: 1, dst: 2 },
            Instr::ReturnIfZero { src: 2 },
            Instr::Split,
            Instr::Load8 { dst: 2, ptr: 18 },
            Instr::CmpEqImm { dst: 2, src: 2, imm: 42 },
            Instr::ReturnIfZero { src: 2 },
            Instr::Split,
        ],
        vec![],
        imports(&["attach", "start", "get_module", "split", "read_mem"]),
        memory,
    );
    let mut runtime = Runtime::new(prog, RecordingTimer::new(), vec![fake_game()]).unwrap();
    runtime.step(0).unwrap();
    assert_eq!(
        runtime.timer().commands(),
        &vec![TimerCommand::Start, TimerCommand::Split, TimerCommand::Split, TimerCommand::Split]
    );
}

#[test]
fn missing_process() {
    // The target is not running: attach fails and the guest returns before
    // ever starting the timer.
    let prog = program(
        vec![
            Instr::Attach { ptr: 0, len: 9, dst: 0 },
            Instr::ReturnIfZero { src: 0 },
            Instr::Start,
        ],
        vec![],
        imports(&["attach", "start"]),
        b"WRONGGAME".to_vec(),
    );
    let mut runtime = Runtime::new(prog, RecordingTimer::new(), vec![]).unwrap();
    runtime.step(0).unwrap();
    assert!(runtime.timer().commands().is_empty());
}

#[test]
fn missing_module() {
    // The target runs, but no module has the asked-for name: the guest starts
    // and then returns without splitting.
    let prog = program(
        vec![
            Instr::Attach { ptr: 0, len: 8, dst: 0 },
            Instr::ReturnIfZero { src: 0 },
            Instr::Start,
            Instr::GetModule { handle: 0, ptr: 8, len: 11, dst: 1 },
            Instr::ReturnIfZero { src: 1 },
            Instr::Split,
        ],
        vec![],
        imports(&["attach", "start", "get_module", "split"]),
        b"fakegameWRONGMODULE".to_vec(),
    );
    let mut runtime = Runtime::new(prog, RecordingTimer::new(), vec![fake_game()]).unwrap();
    runtime.step(0).unwrap();
    assert_eq!(runtime.timer().commands(), &vec![TimerCommand::Start]);
}

#[test]
fn detached_handle_stays_dead() {
    let procs = vec![fake_game()];
    let mut table = HandleTable::new();
    let h = table.attach(&procs, b"fakegame");
    assert_ne!(h, 0);
    assert_eq!(table.lookup(h), Some(7));
    assert_eq!(table.get_module(&procs, h, b"fakemodule"), 0x4000);
    table.detach(h);
    assert_eq!(table.lookup(h), None);
    assert_eq!(table.get_module(&procs, h, b"fakemodule"), 0);
    assert!(table.read_mem(&procs, h, 0x4000, 1).is_none());
    // The slot can be reused, but never under the old handle.
    let h2 = table.attach(&procs, b"fakegame");
    assert_ne!(h2, 0);
    assert_ne!(h2, h);
    assert_eq!(table.lookup(h), None);
    // Detach is idempotent, and the sentinel is always dead.
    table.detach(h);
    table.detach(0);
    assert_eq!(table.lookup(0), None);
}

#[test]
fn attach_nonexistent_changes_nothing() {
    let procs = vec![fake_game()];
    let mut table = HandleTable::new();
    let h = table.attach(&procs, b"fakegame");
    assert_eq!(table.attach(&procs, b"nonexistent"), 0);
    // The earlier attachment is untouched.
    assert_eq!(table.lookup(h), Some(7));
    assert_eq!(table.get_module(&procs, h, b"fakemodule"), 0x4000);
}

#[test]
fn attach_lowest_pid_wins() {
    let mut a = fake_game();
    a.pid = 9;
    let mut b = fake_game();
    b.pid = 3;
    let procs = vec![a, b];
    let mut table = HandleTable::new();
    let h = table.attach(&procs, b"fakegame");
    assert_eq!(table.lookup(h), Some(3));
}

#[test]
fn get_module_lowest_base_wins() {
    let mut game = fake_game();
    game.modules.push(ProcessModule {
        name: b"fakemodule".to_vec(),
        base: 0x1000,
        data: vec![0u8; 4],
    });
    let procs = vec![game];
    let mut table = HandleTable::new();
    let h = table.attach(&procs, b"fakegame");
    assert_eq!(table.get_module(&procs, h, b"fakemodule"), 0x1000);
}

#[test]
fn read_mem_copies_exact_bytes() {
    let procs = vec![fake_game()];
    let mut table = HandleTable::new();
    let h = table.attach(&procs, b"fakegame");
    assert_eq!(table.read_mem(&procs, h, 0x4000 + 0x2000, 1), Some(vec![42]));
    assert_eq!(table.read_mem(&procs, h, 0x4000, 2), Some(vec![0, 0]));
    // Zero-length reads succeed; ranges leaving the module fail.
    assert_eq!(table.read_mem(&procs, h, 0x4000, 0), Some(vec![]));
    assert!(table.read_mem(&procs, h, 0x4000 + 0x2001, 1).is_none());
    assert!(table.read_mem(&procs, h, 0x3fff, 2).is_none());
}

#[test]
fn scheduler_paces_and_scales() {
    let mut s = Scheduler::new();
    assert_eq!(s.sleep_nanos(123), 0);
    s.record_tick(1_000);
    assert_eq!(s.sleep_nanos(1_000), 16_666_666);
    assert_eq!(s.sleep_nanos(1_000 + 16_666_666), 0);
    s.set_tick_rate(50_000);
    assert_eq!(s.sleep_nanos(1_000), 20_000_000);
    // An invalid rate leaves the interval unchanged.
    s.set_tick_rate(0);
    assert_eq!(s.sleep_nanos(1_000), 20_000_000);
    // A faster valid rate strictly shortens the interval.
    s.set_tick_rate(100_000);
    assert_eq!(s.sleep_nanos(1_000), 10_000_000);
    // Fractional rates work: 500 millihertz is one tick every two seconds.
    s.set_tick_rate(500);
    assert_eq!(s.sleep_nanos(1_000), 2_000_000_000);
}

#[test]
fn set_variable_and_game_time() {
    let prog = program(
        vec![
            Instr::SetVariable { key_ptr: 0, key_len: 3, value_ptr: 3, value_len: 4 },
            Instr::SetGameTime { nanos: 1_500_000_000 },
        ],
        vec![],
        imports(&["set_variable", "set_game_time"]),
        b"catmeow".to_vec(),
    );
    let runtime = Runtime::new(prog, RecordingTimer::new(), vec![]).unwrap();
    assert_eq!(
        runtime.timer().commands(),
        &vec![
            TimerCommand::SetVariable(b"cat".to_vec(), b"meow".to_vec()),
            TimerCommand::SetGameTime(TimeSpan::from_nanoseconds(1_500_000_000)),
        ]
    );
}

#[test]
fn guest_observes_timer_state() {
    let mut timer = RecordingTimer::new();
    timer.set_state(TimerState::Paused);
    let prog = program(
        vec![],
        vec![
            Instr::GetTimerState { dst: 0 },
            Instr::CmpEqImm { dst: 0, src: 0, imm: 2 },
            Instr::ReturnIfZero { src: 0 },
            Instr::Split,
        ],
        imports(&["get_timer_state", "split"]),
        vec![],
    );
    let mut runtime = Runtime::new(prog, timer, vec![]).unwrap();
    runtime.step(0).unwrap();
    assert_eq!(runtime.timer().commands(), &vec![TimerCommand::Split]);
}

#[test]
fn timer_state_encoding() {
    assert_eq!(TimerState::NotRunning.encode(), 0);
    assert_eq!(TimerState::Running.encode(), 1);
    assert_eq!(TimerState::Paused.encode(), 2);
    assert_eq!(TimerState::Finished.encode(), 3);
}

#[test]
fn trap_in_update_is_recoverable() {
    let prog = program(
        vec![],
        vec![Instr::PrintMessage { ptr: 1000, len: 10 }, Instr::Split],
        imports(&["print_message", "split"]),
        vec![],
    );
    let mut runtime = Runtime::new(prog, RecordingTimer::new(), vec![]).unwrap();
    assert_eq!(
        runtime.step(0),
        Err(Error::EngineError(Trap::MemoryOutOfBounds))
    );
    // The trap stopped the body before the split, and the runtime stays usable.
    assert!(runtime.timer().commands().is_empty());
    assert_eq!(
        runtime.step(1),
        Err(Error::EngineError(Trap::MemoryOutOfBounds))
    );
}

#[test]
fn trap_in_configure_fails_load() {
    let prog = program(
        vec![Instr::Start, Instr::SetReg { dst: 200, value: 1 }],
        vec![],
        imports(&["start"]),
        vec![],
    );
    match Runtime::new(prog, RecordingTimer::new(), vec![]) {
        Err((e, timer)) => {
            assert_eq!(e, Error::EngineError(Trap::BadRegister));
            // The commands issued before the trap were delivered.
            assert_eq!(timer.commands(), &vec![TimerCommand::Start]);
        },
        Ok(_) => panic!("load should have failed"),
    }
}

#[test]
fn unknown_import_reported_before_interface() {
    // Both faults are present; import resolution comes first.
    let prog = GuestProgram {
        imports: imports(&["mystery"]),
        exports: vec![],
        functions: vec![],
        memory: vec![],
    };
    match Runtime::new(prog, RecordingTimer::new(), vec![]) {
        Err((e, _)) => assert_eq!(e, Error::UnknownHostFunction(b"mystery".to_vec())),
        Ok(_) => panic!("load should have failed"),
    }
}

#[test]
fn process_list_can_change_between_steps() {
    // The module lookup succeeds while the game runs and reports the sentinel
    // once the process is gone.
    let prog = program(
        vec![Instr::Attach { ptr: 0, len: 8, dst: 0 }],
        vec![
            Instr::GetModule { handle: 0, ptr: 8, len: 10, dst: 1 },
            Instr::ReturnIfZero { src: 1 },
            Instr::Split,
        ],
        imports(&["attach", "get_module", "split"]),
        b"fakegamefakemodule".to_vec(),
    );
    let mut runtime = Runtime::new(prog, RecordingTimer::new(), vec![fake_game()]).unwrap();
    runtime.step(0).unwrap();
    assert_eq!(runtime.timer().commands().len(), 1);
    runtime.set_processes(vec![]);
    runtime.step(1).unwrap();
    assert_eq!(runtime.timer().commands().len(), 1);
}
