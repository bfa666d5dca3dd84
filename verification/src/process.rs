//! The modeled view of the operating system: the list of running processes,
//! their loaded modules, and the bytes those modules map.
//!
//! The runtime treats process attachment, module lookup and memory reads as an
//! abstract capability over this model; an embedder fills it from whatever its
//! platform offers. Names are executable basenames as UTF-8 byte strings,
//! compared byte for byte.

use vstd::prelude::*;

verus! {

/// One module (shared object / mapped file) loaded in a target process: its
/// basename, its base load address, and the bytes it maps there.
#[derive(Debug, Clone)]
pub struct ProcessModule {
    pub name: Vec<u8>,
    pub base: u64,
    pub data: Vec<u8>,
}

/// One running process: its identifier, its executable's basename, and its
/// loaded modules.
#[derive(Debug, Clone)]
pub struct Process {
    pub pid: u64,
    pub name: Vec<u8>,
    pub modules: Vec<ProcessModule>,
}

/// The lowest pid among the processes named `name`, or `None` when no process
/// has that name. The lowest pid wins so that attachment is deterministic when
/// several processes share a name.
pub open spec fn lowest_matching_pid(procs: Seq<Process>, name: Seq<u8>) -> Option<u64>
    decreases procs.len(),
{
    if procs.len() == 0 {
        None
    } else {
        let rest = lowest_matching_pid(procs.skip(1), name);
        if procs[0].name@ == name {
            match rest {
                Some(p) => if procs[0].pid <= p {
                    Some(procs[0].pid)
                } else {
                    Some(p)
                },
                None => Some(procs[0].pid),
            }
        } else {
            rest
        }
    }
}

/// The first process in the list whose pid is `pid`.
pub open spec fn find_process(procs: Seq<Process>, pid: u64) -> Option<Process>
    decreases procs.len(),
{
    if procs.len() == 0 {
        None
    } else if procs[0].pid == pid {
        Some(procs[0])
    } else {
        find_process(procs.skip(1), pid)
    }
}

/// The lowest base address among the modules named `name`, or `None` when the
/// process has no such module. The lowest address wins so that lookup is
/// deterministic when several modules share a basename.
pub open spec fn lowest_module_base(mods: Seq<ProcessModule>, name: Seq<u8>) -> Option<u64>
    decreases mods.len(),
{
    if mods.len() == 0 {
        None
    } else {
        let rest = lowest_module_base(mods.skip(1), name);
        if mods[0].name@ == name {
            match rest {
                Some(b) => if mods[0].base <= b {
                    Some(mods[0].base)
                } else {
                    Some(b)
                },
                None => Some(mods[0].base),
            }
        } else {
            rest
        }
    }
}

/// Whether the byte range `[addr, addr + len)` lies inside module `m`.
pub open spec fn module_covers(m: ProcessModule, addr: int, len: int) -> bool {
    m.base <= addr && addr - m.base + len <= m.data@.len()
}

/// The bytes at `[addr, addr + len)` in the target, taken from the first
/// module that covers the whole range, or `None` when no module does. A
/// zero-length read always succeeds with no bytes.
pub open spec fn read_bytes(mods: Seq<ProcessModule>, addr: int, len: int) -> Option<Seq<u8>>
    decreases mods.len(),
{
    if len == 0 {
        Some(Seq::<u8>::empty())
    } else if mods.len() == 0 {
        None
    } else if module_covers(mods[0], addr, len) {
        Some(mods[0].data@.subrange(addr - mods[0].base, addr - mods[0].base + len))
    } else {
        read_bytes(mods.skip(1), addr, len)
    }
}

/// A successful read yields exactly as many bytes as were asked for.
pub proof fn lemma_read_bytes_len(mods: Seq<ProcessModule>, addr: int, len: int)
    requires
        len >= 0,
    ensures
        read_bytes(mods, addr, len) matches Some(b) ==> b.len() == len,
    decreases mods.len(),
{
    if len == 0 {
    } else if mods.len() == 0 {
    } else if module_covers(mods[0], addr, len) {
    } else {
        lemma_read_bytes_len(mods.skip(1), addr, len);
    }
}

/// Byte-string equality.
pub fn bytes_eq(a: &[u8], b: &[u8]) -> (r: bool)
    ensures
        r <==> a@ == b@,
{
    if a.len() != b.len() {
        return false;
    }
    let n = a.len();
    let mut i: usize = 0;
    while i < n
        invariant
            n == a@.len() == b@.len(),
            i <= n,
            forall|j: int| 0 <= j < i ==> a@[j] == b@[j],
        decreases n - i,
    {
        if a[i] != b[i] {
            return false;
        }
        i = i + 1;
    }
    proof {
        assert(a@ =~= b@);
    }
    true
}

/// The lowest pid among processes named `name`, as [`lowest_matching_pid`].
pub fn scan_lowest_pid(procs: &Vec<Process>, name: &[u8]) -> (r: Option<u64>)
    ensures
        r == lowest_matching_pid(procs@, name@),
{
    let n = procs.len();
    let mut best: Option<u64> = None;
    let mut i: usize = n;
    while i > 0
        invariant
            i <= n,
            n == procs@.len(),
            best == lowest_matching_pid(procs@.skip(i as int), name@),
        decreases i,
    {
        i = i - 1;
        let ghost pre = procs@.skip(i as int);
        proof {
            assert(pre[0] == procs@[i as int]);
            assert(pre.skip(1) =~= procs@.skip(i as int + 1));
        }
        if bytes_eq(procs[i].name.as_slice(), name) {
            best = match best {
                Some(p) => if procs[i].pid <= p {
                    Some(procs[i].pid)
                } else {
                    Some(p)
                },
                None => Some(procs[i].pid),
            };
        }
    }
    proof {
        assert(procs@.skip(0) =~= procs@);
    }
    best
}

/// The lowest base among modules named `name`, as [`lowest_module_base`].
pub fn scan_lowest_base(mods: &Vec<ProcessModule>, name: &[u8]) -> (r: Option<u64>)
    ensures
        r == lowest_module_base(mods@, name@),
{
    let n = mods.len();
    let mut best: Option<u64> = None;
    let mut i: usize = n;
    while i > 0
        invariant
            i <= n,
            n == mods@.len(),
            best == lowest_module_base(mods@.skip(i as int), name@),
        decreases i,
    {
        i = i - 1;
        let ghost pre = mods@.skip(i as int);
        proof {
            assert(pre[0] == mods@[i as int]);
            assert(pre.skip(1) =~= mods@.skip(i as int + 1));
        }
        if bytes_eq(mods[i].name.as_slice(), name) {
            best = match best {
                Some(b) => if mods[i].base <= b {
                    Some(mods[i].base)
                } else {
                    Some(b)
                },
                None => Some(mods[i].base),
            };
        }
    }
    proof {
        assert(mods@.skip(0) =~= mods@);
    }
    best
}

/// Copies `len` bytes at absolute address `addr`, as [`read_bytes`].
pub fn copy_bytes(mods: &Vec<ProcessModule>, addr: u64, len: usize) -> (r: Option<Vec<u8>>)
    ensures
        r is Some <==> read_bytes(mods@, addr as int, len as int) is Some,
        r matches Some(v) ==> Some(v@) == read_bytes(mods@, addr as int, len as int),
{
    if len == 0 {
        let out: Vec<u8> = Vec::new();
        proof {
            assert(out@ =~= Seq::<u8>::empty());
        }
        return Some(out);
    }
    let n = mods.len();
    let mut i: usize = 0;
    proof {
        assert(mods@.skip(0) =~= mods@);
    }
    while i < n
        invariant
            i <= n,
            n == mods@.len(),
            len > 0,
            read_bytes(mods@, addr as int, len as int) == read_bytes(
                mods@.skip(i as int),
                addr as int,
                len as int,
            ),
        decreases n - i,
    {
        let ghost pre = mods@.skip(i as int);
        proof {
            assert(pre[0] == mods@[i as int]);
            assert(pre.skip(1) =~= mods@.skip(i as int + 1));
        }
        let m = &mods[i];
        if m.base <= addr && (addr - m.base) as u128 + len as u128 <= m.data.len() as u128 {
            let start = (addr - m.base) as usize;
            let mut out: Vec<u8> = Vec::new();
            out.extend_from_slice(&m.data.as_slice()[start..start + len]);
            proof {
                assert(out@ =~= m.data@.subrange(
                    addr - m.base,
                    addr - m.base + len,
                ));
            }
            return Some(out);
        }
        i = i + 1;
    }
    None
}

} // verus!
