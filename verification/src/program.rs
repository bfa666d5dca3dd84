//! Guest programs and their validation.
//!
//! A guest program is the engine-independent shape of a compiled guest
//! module: the host symbols its import section names, its exported functions,
//! their bodies in a small virtual instruction set, and the initial image of
//! its linear memory. The loader validates that every import resolves to the
//! host ABI and that the program exports `configure` and `update`, both with
//! the signature `() -> ()`, before anything runs.

use vstd::prelude::*;

use crate::error::Error;
use crate::process::bytes_eq;

verus! {

/// How many virtual registers a guest instance has.
pub const REGISTER_COUNT: usize = 4;

/// One instruction of the guest's virtual ISA. Registers hold unsigned 64-bit
/// values and persist across calls into the guest; `ptr`/`len` immediates are
/// offsets and byte counts in the guest's linear memory, validated against the
/// memory size before every access.
#[derive(Clone, Copy, Debug, PartialEq, Eq, Structural)]
pub enum Instr {
    /// `regs[dst] := value`.
    SetReg { dst: u8, value: u64 },
    /// `regs[dst] := regs[src] + imm`, wrapping.
    AddImm { dst: u8, src: u8, imm: u64 },
    /// `regs[dst] := if regs[src] == imm { 1 } else { 0 }`.
    CmpEqImm { dst: u8, src: u8, imm: u64 },
    /// Return from the current guest function when `regs[src] == 0`.
    ReturnIfZero { src: u8 },
    /// `regs[dst] := mem[ptr]`, one byte, zero-extended.
    Load8 { dst: u8, ptr: u32 },
    /// Log the UTF-8 slice at `(ptr, len)` at diagnostic level.
    PrintMessage { ptr: u32, len: u32 },
    /// `regs[dst] :=` handle from attaching to the process named by the bytes
    /// at `(ptr, len)`; `0` when no process matches.
    Attach { ptr: u32, len: u32, dst: u8 },
    /// Release the handle in `regs[src]`.
    Detach { src: u8 },
    /// `regs[dst] :=` base address of the module named by `(ptr, len)` in the
    /// process of the handle in `regs[handle]`; `0` on any failure.
    GetModule { handle: u8, ptr: u32, len: u32, dst: u8 },
    /// Copy `buf_len` bytes from the target address in `regs[addr]` into
    /// guest memory at `buf_ptr`; `regs[dst] := 1` on full success, else `0`.
    ReadMem { handle: u8, addr: u8, buf_ptr: u32, buf_len: u32, dst: u8 },
    /// Forward to the timer.
    Start,
    /// Forward to the timer.
    Split,
    /// Forward to the timer.
    Reset,
    /// Forward to the timer.
    PauseGameTime,
    /// Forward to the timer.
    ResumeGameTime,
    /// Set the tick rate, in ticks per second scaled by 1000 (millihertz).
    /// A rate of `0` is invalid and ignored.
    SetTickRate { millihertz: u64 },
    /// Forward the variable named by `(key_ptr, key_len)` with the value at
    /// `(value_ptr, value_len)` to the timer.
    SetVariable { key_ptr: u32, key_len: u32, value_ptr: u32, value_len: u32 },
    /// Forward a game time of `nanos` nanoseconds to the timer.
    SetGameTime { nanos: i64 },
    /// `regs[dst] :=` the timer state, encoded as `0` not running, `1`
    /// running, `2` paused, `3` finished.
    GetTimerState { dst: u8 },
}

/// One guest function: its arity and its straight-line body.
#[derive(Debug, Clone)]
pub struct GuestFunction {
    pub params: u8,
    pub results: u8,
    pub body: Vec<Instr>,
}

/// One entry of the export section: a name and the function it denotes.
#[derive(Debug, Clone)]
pub struct Export {
    pub name: Vec<u8>,
    pub func: usize,
}

/// A compiled guest program, as the engine hands it over.
#[derive(Debug, Clone)]
pub struct GuestProgram {
    /// The host symbols the import section names.
    pub imports: Vec<Vec<u8>>,
    /// The export section.
    pub exports: Vec<Export>,
    /// The function bodies exports point into.
    pub functions: Vec<GuestFunction>,
    /// The initial image of the linear memory.
    pub memory: Vec<u8>,
}

/// The names of the host functions a guest may import, as UTF-8 bytes.
pub open spec fn host_abi_names() -> Seq<Seq<u8>> {
    seq![
        seq!['p' as u8, 'r' as u8, 'i' as u8, 'n' as u8, 't' as u8, '_' as u8, 'm' as u8, 'e' as u8, 's' as u8, 's' as u8, 'a' as u8, 'g' as u8, 'e' as u8],
        seq!['a' as u8, 't' as u8, 't' as u8, 'a' as u8, 'c' as u8, 'h' as u8],
        seq!['d' as u8, 'e' as u8, 't' as u8, 'a' as u8, 'c' as u8, 'h' as u8],
        seq!['g' as u8, 'e' as u8, 't' as u8, '_' as u8, 'm' as u8, 'o' as u8, 'd' as u8, 'u' as u8, 'l' as u8, 'e' as u8],
        seq!['r' as u8, 'e' as u8, 'a' as u8, 'd' as u8, '_' as u8, 'm' as u8, 'e' as u8, 'm' as u8],
        seq!['s' as u8, 't' as u8, 'a' as u8, 'r' as u8, 't' as u8],
        seq!['s' as u8, 'p' as u8, 'l' as u8, 'i' as u8, 't' as u8],
        seq!['r' as u8, 'e' as u8, 's' as u8, 'e' as u8, 't' as u8],
        seq!['p' as u8, 'a' as u8, 'u' as u8, 's' as u8, 'e' as u8, '_' as u8, 'g' as u8, 'a' as u8, 'm' as u8, 'e' as u8, '_' as u8, 't' as u8, 'i' as u8, 'm' as u8, 'e' as u8],
        seq!['r' as u8, 'e' as u8, 's' as u8, 'u' as u8, 'm' as u8, 'e' as u8, '_' as u8, 'g' as u8, 'a' as u8, 'm' as u8, 'e' as u8, '_' as u8, 't' as u8, 'i' as u8, 'm' as u8, 'e' as u8],
        seq!['s' as u8, 'e' as u8, 't' as u8, '_' as u8, 't' as u8, 'i' as u8, 'c' as u8, 'k' as u8, '_' as u8, 'r' as u8, 'a' as u8, 't' as u8, 'e' as u8],
        seq!['s' as u8, 'e' as u8, 't' as u8, '_' as u8, 'v' as u8, 'a' as u8, 'r' as u8, 'i' as u8, 'a' as u8, 'b' as u8, 'l' as u8, 'e' as u8],
        seq!['s' as u8, 'e' as u8, 't' as u8, '_' as u8, 'g' as u8, 'a' as u8, 'm' as u8, 'e' as u8, '_' as u8, 't' as u8, 'i' as u8, 'm' as u8, 'e' as u8],
        seq!['g' as u8, 'e' as u8, 't' as u8, '_' as u8, 't' as u8, 'i' as u8, 'm' as u8, 'e' as u8, 'r' as u8, '_' as u8, 's' as u8, 't' as u8, 'a' as u8, 't' as u8, 'e' as u8],
    ]
}

/// Whether `name` is a host ABI symbol.
pub open spec fn is_host_symbol(name: Seq<u8>) -> bool {
    host_abi_names().contains(name)
}

/// The name of the required `configure` export.
pub open spec fn configure_name() -> Seq<u8> {
    seq!['c' as u8, 'o' as u8, 'n' as u8, 'f' as u8, 'i' as u8, 'g' as u8, 'u' as u8, 'r' as u8, 'e' as u8]
}

/// The name of the required `update` export.
pub open spec fn update_name() -> Seq<u8> {
    seq!['u' as u8, 'p' as u8, 'd' as u8, 'a' as u8, 't' as u8, 'e' as u8]
}

/// The import names of a program, as byte sequences.
pub open spec fn import_views(prog: GuestProgram) -> Seq<Seq<u8>> {
    prog.imports@.map_values(|v: Vec<u8>| v@)
}

/// The first import that resolves to no host symbol, if any.
pub open spec fn first_unknown_import(imports: Seq<Seq<u8>>) -> Option<Seq<u8>>
    decreases imports.len(),
{
    if imports.len() == 0 {
        None
    } else if !is_host_symbol(imports[0]) {
        Some(imports[0])
    } else {
        first_unknown_import(imports.skip(1))
    }
}

/// The first export of that name, if any.
pub open spec fn find_export(exports: Seq<Export>, name: Seq<u8>) -> Option<Export>
    decreases exports.len(),
{
    if exports.len() == 0 {
        None
    } else if exports[0].name@ == name {
        Some(exports[0])
    } else {
        find_export(exports.skip(1), name)
    }
}

/// Whether the program exports `name` as a function taking no arguments and
/// returning nothing.
pub open spec fn export_is_unit_fn(prog: GuestProgram, name: Seq<u8>) -> bool {
    match find_export(prog.exports@, name) {
        Some(e) => {
            &&& e.func < prog.functions@.len()
            &&& prog.functions@[e.func as int].params == 0
            &&& prog.functions@[e.func as int].results == 0
        },
        None => false,
    }
}

/// The function index `name` exports, when it does.
pub open spec fn export_func(prog: GuestProgram, name: Seq<u8>) -> Option<usize> {
    match find_export(prog.exports@, name) {
        Some(e) => Some(e.func),
        None => None,
    }
}

/// Whether the program has the required interface: `configure` and `update`,
/// both `() -> ()`.
pub open spec fn interface_ok(prog: GuestProgram) -> bool {
    export_is_unit_fn(prog, configure_name()) && export_is_unit_fn(prog, update_name())
}

/// The body of the function `name` exports, or the empty body when the
/// export is missing or points outside the function section.
pub open spec fn body_of_export(prog: GuestProgram, name: Seq<u8>) -> Seq<Instr> {
    match export_func(prog, name) {
        Some(f) => if f < prog.functions@.len() {
            prog.functions@[f as int].body@
        } else {
            Seq::empty()
        },
        None => Seq::empty(),
    }
}

/// The host ABI names as an executable table, in the order of
/// [`host_abi_names`].
fn host_abi_table() -> (t: Vec<Vec<u8>>)
    ensures
        t@.map_values(|v: Vec<u8>| v@) == host_abi_names(),
{
    let mut t: Vec<Vec<u8>> = Vec::new();
    t.push(vec!['p' as u8, 'r' as u8, 'i' as u8, 'n' as u8, 't' as u8, '_' as u8, 'm' as u8, 'e' as u8, 's' as u8, 's' as u8, 'a' as u8, 'g' as u8, 'e' as u8]);
    t.push(vec!['a' as u8, 't' as u8, 't' as u8, 'a' as u8, 'c' as u8, 'h' as u8]);
    t.push(vec!['d' as u8, 'e' as u8, 't' as u8, 'a' as u8, 'c' as u8, 'h' as u8]);
    t.push(vec!['g' as u8, 'e' as u8, 't' as u8, '_' as u8, 'm' as u8, 'o' as u8, 'd' as u8, 'u' as u8, 'l' as u8, 'e' as u8]);
    t.push(vec!['r' as u8, 'e' as u8, 'a' as u8, 'd' as u8, '_' as u8, 'm' as u8, 'e' as u8, 'm' as u8]);
    t.push(vec!['s' as u8, 't' as u8, 'a' as u8, 'r' as u8, 't' as u8]);
    t.push(vec!['s' as u8, 'p' as u8, 'l' as u8, 'i' as u8, 't' as u8]);
    t.push(vec!['r' as u8, 'e' as u8, 's' as u8, 'e' as u8, 't' as u8]);
    t.push(vec!['p' as u8, 'a' as u8, 'u' as u8, 's' as u8, 'e' as u8, '_' as u8, 'g' as u8, 'a' as u8, 'm' as u8, 'e' as u8, '_' as u8, 't' as u8, 'i' as u8, 'm' as u8, 'e' as u8]);
    t.push(vec!['r' as u8, 'e' as u8, 's' as u8, 'u' as u8, 'm' as u8, 'e' as u8, '_' as u8, 'g' as u8, 'a' as u8, 'm' as u8, 'e' as u8, '_' as u8, 't' as u8, 'i' as u8, 'm' as u8, 'e' as u8]);
    t.push(vec!['s' as u8, 'e' as u8, 't' as u8, '_' as u8, 't' as u8, 'i' as u8, 'c' as u8, 'k' as u8, '_' as u8, 'r' as u8, 'a' as u8, 't' as u8, 'e' as u8]);
    t.push(vec!['s' as u8, 'e' as u8, 't' as u8, '_' as u8, 'v' as u8, 'a' as u8, 'r' as u8, 'i' as u8, 'a' as u8, 'b' as u8, 'l' as u8, 'e' as u8]);
    t.push(vec!['s' as u8, 'e' as u8, 't' as u8, '_' as u8, 'g' as u8, 'a' as u8, 'm' as u8, 'e' as u8, '_' as u8, 't' as u8, 'i' as u8, 'm' as u8, 'e' as u8]);
    t.push(vec!['g' as u8, 'e' as u8, 't' as u8, '_' as u8, 't' as u8, 'i' as u8, 'm' as u8, 'e' as u8, 'r' as u8, '_' as u8, 's' as u8, 't' as u8, 'a' as u8, 't' as u8, 'e' as u8]);
    proof {
        assert(t@.map_values(|v: Vec<u8>| v@) =~= host_abi_names());
    }
    t
}

/// Whether `name` resolves to a host ABI symbol.
pub fn resolve_host_symbol(name: &[u8]) -> (r: bool)
    ensures
        r == is_host_symbol(name@),
{
    let t = host_abi_table();
    let n = t.len();
    let mut i: usize = 0;
    while i < n
        invariant
            i <= n,
            n == t@.len(),
            t@.map_values(|v: Vec<u8>| v@) == host_abi_names(),
            forall|j: int| 0 <= j < i ==> #[trigger] host_abi_names()[j] != name@,
        decreases n - i,
    {
        if bytes_eq(t[i].as_slice(), name) {
            proof {
                assert(host_abi_names()[i as int] == name@);
            }
            return true;
        }
        proof {
            assert(t@.map_values(|v: Vec<u8>| v@)[i as int] == t@[i as int]@);
        }
        i = i + 1;
    }
    proof {
        if is_host_symbol(name@) {
            let j = choose|j: int|
                0 <= j < host_abi_names().len() && host_abi_names()[j] == name@;
            assert(t@.map_values(|v: Vec<u8>| v@)[j] == name@);
        }
    }
    false
}

/// The function index of the first export named `name`, when that export is a
/// `() -> ()` function; `None` otherwise.
pub fn find_unit_export(prog: &GuestProgram, name: &[u8]) -> (r: Option<usize>)
    ensures
        export_is_unit_fn(*prog, name@) ==> r == export_func(*prog, name@),
        !export_is_unit_fn(*prog, name@) ==> r is None,
{
    let n = prog.exports.len();
    let mut i: usize = 0;
    proof {
        assert(prog.exports@.skip(0) =~= prog.exports@);
    }
    while i < n
        invariant
            i <= n,
            n == prog.exports@.len(),
            find_export(prog.exports@, name@) == find_export(prog.exports@.skip(i as int), name@),
        decreases n - i,
    {
        let ghost pre = prog.exports@.skip(i as int);
        proof {
            assert(pre[0] == prog.exports@[i as int]);
            assert(pre.skip(1) =~= prog.exports@.skip(i as int + 1));
        }
        if bytes_eq(prog.exports[i].name.as_slice(), name) {
            let f = prog.exports[i].func;
            if f < prog.functions.len() && prog.functions[f].params == 0
                && prog.functions[f].results == 0 {
                return Some(f);
            } else {
                return None;
            }
        }
        i = i + 1;
    }
    None
}

/// Validates a guest program against the host ABI and the required interface.
///
/// Imports are resolved first: an import that names no host symbol fails the
/// load with [`Error::UnknownHostFunction`] carrying the first such name.
/// Then the exports are checked: a program that does not export `configure`
/// and `update`, both `() -> ()`, fails with [`Error::InvalidInterface`].
pub fn validate(prog: &GuestProgram) -> (r: Result<(), Error>)
    ensures
        r is Ok <==> first_unknown_import(import_views(*prog)) is None && interface_ok(*prog),
        first_unknown_import(import_views(*prog)) matches Some(bad) ==> (r matches Err(
            Error::UnknownHostFunction(m),
        ) && m@ == bad),
        first_unknown_import(import_views(*prog)) is None && !interface_ok(*prog) ==> r == Err::<
            (),
            Error,
        >(Error::InvalidInterface),
{
    let n = prog.imports.len();
    let mut i: usize = 0;
    proof {
        assert(import_views(*prog).skip(0) =~= import_views(*prog));
    }
    while i < n
        invariant
            i <= n,
            n == prog.imports@.len(),
            first_unknown_import(import_views(*prog)) == first_unknown_import(
                import_views(*prog).skip(i as int),
            ),
        decreases n - i,
    {
        let ghost pre = import_views(*prog).skip(i as int);
        proof {
            assert(pre[0] == import_views(*prog)[i as int]);
            assert(import_views(*prog)[i as int] == prog.imports@[i as int]@);
            assert(pre.skip(1) =~= import_views(*prog).skip(i as int + 1));
        }
        if !resolve_host_symbol(prog.imports[i].as_slice()) {
            return Err(Error::UnknownHostFunction(prog.imports[i].clone()));
        }
        i = i + 1;
    }
    let configure = configure_export_name();
    let update = update_export_name();
    if find_unit_export(prog, configure.as_slice()).is_none() {
        return Err(Error::InvalidInterface);
    }
    if find_unit_export(prog, update.as_slice()).is_none() {
        return Err(Error::InvalidInterface);
    }
    Ok(())
}

/// The bytes of the `configure` export name.
pub fn configure_export_name() -> (r: Vec<u8>)
    ensures
        r@ == configure_name(),
{
    let r = vec!['c' as u8, 'o' as u8, 'n' as u8, 'f' as u8, 'i' as u8, 'g' as u8, 'u' as u8, 'r' as u8, 'e' as u8];
    proof {
        assert(r@ =~= configure_name());
    }
    r
}

/// The bytes of the `update` export name.
pub fn update_export_name() -> (r: Vec<u8>)
    ensures
        r@ == update_name(),
{
    let r = vec!['u' as u8, 'p' as u8, 'd' as u8, 'a' as u8, 't' as u8, 'e' as u8];
    proof {
        assert(r@ =~= update_name());
    }
    r
}

} // verus!
