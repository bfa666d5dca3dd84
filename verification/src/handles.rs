//! The process handle table: an arena of slots indexed by a generation-tagged
//! 64-bit handle.
//!
//! A handle packs a slot index in its upper 32 bits and the slot's generation
//! in its lower 32 bits. Generations start at one and are bumped whenever a
//! slot is detached, so a detached handle can never denote a later attachment
//! to the same slot. `0` is the reserved invalid handle.

use vstd::prelude::*;

use crate::process::{
    find_process, lowest_matching_pid, lowest_module_base, read_bytes, scan_lowest_base,
    scan_lowest_pid, copy_bytes, Process,
};

verus! {

/// The largest generation a slot can reach. A slot whose generation got there
/// is never handed out again.
pub const GENERATION_LIMIT: u32 = 0xFFFF_FFFF;

/// The table can address at most this many slots, because a handle keeps the
/// slot index in 32 bits.
pub const SLOT_LIMIT: u64 = 0x1_0000_0000;

/// One slot of the arena. `occupied` says whether the slot currently backs a
/// live attachment to the process `pid`.
#[derive(Clone, Copy, Debug, PartialEq, Eq, Structural)]
pub struct Slot {
    pub generation: u32,
    pub pid: u64,
    pub occupied: bool,
}

/// The slot index a handle names.
pub open spec fn handle_index(h: u64) -> int {
    (h >> 32) as int
}

/// The generation a handle carries.
pub open spec fn handle_generation(h: u64) -> u64 {
    h & 0xFFFF_FFFF
}

/// The handle for slot `i` at generation `g`.
pub open spec fn spec_pack_handle(i: int, g: u64) -> u64 {
    ((i as u64) << 32) | g
}

/// A handle is live when the slot it names is occupied at its generation.
pub open spec fn handle_live(slots: Seq<Slot>, h: u64) -> bool {
    &&& 0 <= handle_index(h) < slots.len()
    &&& slots[handle_index(h)].occupied
    &&& slots[handle_index(h)].generation == handle_generation(h)
}

/// The pid a live handle is attached to.
pub open spec fn handle_pid(slots: Seq<Slot>, h: u64) -> u64 {
    slots[handle_index(h)].pid
}

/// A handle is retired when its slot has moved past its generation, or its
/// slot sits at the final generation unoccupied. A retired handle is not live
/// and no later operation can make it live again.
pub open spec fn handle_retired(slots: Seq<Slot>, h: u64) -> bool {
    &&& 0 <= handle_index(h) < slots.len()
    &&& {
        ||| handle_generation(h) < slots[handle_index(h)].generation
        ||| (handle_generation(h) == slots[handle_index(h)].generation
            && slots[handle_index(h)].generation == GENERATION_LIMIT
            && !slots[handle_index(h)].occupied)
    }
}

/// The first reusable slot: unoccupied and below the final generation.
pub open spec fn first_free_slot(slots: Seq<Slot>) -> Option<int>
    decreases slots.len(),
{
    first_free_slot_from(slots, 0)
}

pub open spec fn first_free_slot_from(slots: Seq<Slot>, i: int) -> Option<int>
    decreases slots.len() - i,
{
    if i < 0 || i >= slots.len() {
        None
    } else if !slots[i].occupied && slots[i].generation < GENERATION_LIMIT {
        Some(i)
    } else {
        first_free_slot_from(slots, i + 1)
    }
}

/// What attaching to `pid` does to the arena: reuse the first free slot at its
/// current generation, or grow by a fresh slot at generation one, or fail with
/// the sentinel `0` when every slot index is spent.
pub open spec fn spec_attach_slots(slots: Seq<Slot>, pid: u64) -> (Seq<Slot>, u64) {
    match first_free_slot(slots) {
        Some(i) => (
            slots.update(i, Slot { generation: slots[i].generation, pid, occupied: true }),
            spec_pack_handle(i, slots[i].generation as u64),
        ),
        None => if slots.len() < SLOT_LIMIT {
            (
                slots.push(Slot { generation: 1, pid, occupied: true }),
                spec_pack_handle(slots.len() as int, 1),
            )
        } else {
            (slots, 0)
        },
    }
}

/// What attaching by name does: nothing but the sentinel when no process
/// matches, otherwise an attachment to the lowest matching pid.
pub open spec fn spec_attach(slots: Seq<Slot>, procs: Seq<Process>, name: Seq<u8>) -> (
    Seq<Slot>,
    u64,
) {
    match lowest_matching_pid(procs, name) {
        None => (slots, 0),
        Some(pid) => spec_attach_slots(slots, pid),
    }
}

/// What detaching `h` does: a live handle's slot is freed and its generation
/// bumped (or pinned at the final generation); anything else is a no-op.
pub open spec fn spec_detach(slots: Seq<Slot>, h: u64) -> Seq<Slot> {
    if handle_live(slots, h) {
        let i = handle_index(h);
        let g = slots[i].generation;
        slots.update(
            i,
            Slot {
                generation: if g == GENERATION_LIMIT {
                    g
                } else {
                    (g + 1) as u32
                },
                pid: slots[i].pid,
                occupied: false,
            },
        )
    } else {
        slots
    }
}

/// The base address `get_module` reports: `0` unless the handle is live, its
/// process is running, and the process has a module of that name.
pub open spec fn spec_get_module(
    slots: Seq<Slot>,
    procs: Seq<Process>,
    h: u64,
    name: Seq<u8>,
) -> u64 {
    if handle_live(slots, h) {
        match find_process(procs, handle_pid(slots, h)) {
            Some(p) => match lowest_module_base(p.modules@, name) {
                Some(b) => b,
                None => 0,
            },
            None => 0,
        }
    } else {
        0
    }
}

/// The bytes `read_mem` copies: `None` unless the handle is live, its process
/// is running, and one mapped module covers the whole range.
pub open spec fn spec_read_mem(
    slots: Seq<Slot>,
    procs: Seq<Process>,
    h: u64,
    addr: int,
    len: int,
) -> Option<Seq<u8>> {
    if handle_live(slots, h) {
        match find_process(procs, handle_pid(slots, h)) {
            Some(p) => read_bytes(p.modules@, addr, len),
            None => None,
        }
    } else {
        None
    }
}

/// A retired handle is not live.
pub proof fn lemma_retired_not_live(slots: Seq<Slot>, h: u64)
    requires
        handle_retired(slots, h),
    ensures
        !handle_live(slots, h),
{
}

/// Attaching to a process whose name no running process bears returns the
/// sentinel `0` and leaves the table exactly as it was.
pub proof fn lemma_attach_no_match(slots: Seq<Slot>, procs: Seq<Process>, name: Seq<u8>)
    requires
        lowest_matching_pid(procs, name) is None,
    ensures
        spec_attach(slots, procs, name) == (slots, 0u64),
{
}

/// Detaching a live handle retires it, and every operation thereafter sees it
/// as invalid: `get_module` reports the sentinel `0` and `read_mem` fails,
/// whatever name, address or length is asked.
pub proof fn lemma_detach_rejects(
    slots: Seq<Slot>,
    procs: Seq<Process>,
    h: u64,
    name: Seq<u8>,
    addr: int,
    len: int,
)
    requires
        handle_live(slots, h),
    ensures
        ({
            let after = spec_detach(slots, h);
            &&& handle_retired(after, h)
            &&& !handle_live(after, h)
            &&& spec_get_module(after, procs, h, name) == 0
            &&& spec_read_mem(after, procs, h, addr, len) is None
        }),
{
    let after = spec_detach(slots, h);
    assert(handle_retired(after, h));
    lemma_retired_not_live(after, h);
}

/// Attaching never revives a retired handle: the fresh handle reuses a slot
/// only at that slot's current generation, which every handle retired there
/// lies below.
pub proof fn lemma_attach_preserves_retired(
    slots: Seq<Slot>,
    procs: Seq<Process>,
    name: Seq<u8>,
    h: u64,
)
    requires
        handle_retired(slots, h),
    ensures
        handle_retired(spec_attach(slots, procs, name).0, h),
{
    lemma_first_free_slot_props(slots, 0);
}

/// The slot [`first_free_slot`] picks really is free and reusable.
proof fn lemma_first_free_slot_props(slots: Seq<Slot>, i: int)
    ensures
        first_free_slot_from(slots, i) matches Some(j) ==> i <= j < slots.len()
            && !slots[j].occupied && slots[j].generation < GENERATION_LIMIT,
    decreases slots.len() - i,
{
    if i < 0 || i >= slots.len() {
    } else if !slots[i].occupied && slots[i].generation < GENERATION_LIMIT {
    } else {
        lemma_first_free_slot_props(slots, i + 1);
    }
}

/// Detaching any handle leaves every retired handle retired: generations only
/// grow.
pub proof fn lemma_detach_preserves_retired(slots: Seq<Slot>, other: u64, h: u64)
    requires
        handle_retired(slots, h),
    ensures
        handle_retired(spec_detach(slots, other), h),
{
}

proof fn lemma_pack_handle(i: u64, g: u64)
    requires
        i < 0x1_0000_0000,
        1 <= g < 0x1_0000_0000,
    ensures
        ((i << 32) | g) >> 32 == i,
        ((i << 32) | g) & 0xFFFF_FFFF == g,
        ((i << 32) | g) != 0,
{
    assert(((i << 32u64) | g) >> 32u64 == i && ((i << 32u64) | g) & 0xFFFF_FFFF == g && ((i
        << 32u64) | g) != 0) by (bit_vector)
        requires
            i < 0x1_0000_0000u64 && 1 <= g < 0x1_0000_0000u64,
    ;
}

/// The handle table. Owns the slots; the well-formedness invariant keeps every
/// generation at least one and the arena within the addressable index range.
#[derive(Debug)]
pub struct HandleTable {
    slots: Vec<Slot>,
}

impl HandleTable {
    /// The slots as the contracts speak of them.
    pub closed spec fn slots(&self) -> Seq<Slot> {
        self.slots@
    }

    pub open spec fn wf(&self) -> bool {
        &&& self.slots().len() <= SLOT_LIMIT
        &&& forall|i: int|
            0 <= i < self.slots().len() ==> #[trigger] self.slots()[i].generation >= 1
    }

    /// An empty table.
    pub fn new() -> (r: HandleTable)
        ensures
            r.wf(),
            r.slots() == Seq::<Slot>::empty(),
    {
        let r = HandleTable { slots: Vec::new() };
        proof {
            assert(r.slots() =~= Seq::<Slot>::empty());
        }
        r
    }

    /// Scans `procs` for the first process named `name` (lowest pid wins) and
    /// hands out a fresh non-zero handle to it, or returns `0` when no process
    /// matches (or, in principle, when every slot index is spent). A fresh
    /// handle is never one that was live or retired before.
    pub fn attach(&mut self, procs: &Vec<Process>, name: &[u8]) -> (h: u64)
        requires
            old(self).wf(),
        ensures
            final(self).wf(),
            (final(self).slots(), h) == spec_attach(old(self).slots(), procs@, name@),
            h == 0 ==> final(self).slots() == old(self).slots(),
            h != 0 ==> {
                &&& !handle_live(old(self).slots(), h)
                &&& !handle_retired(old(self).slots(), h)
                &&& handle_live(final(self).slots(), h)
                &&& Some(handle_pid(final(self).slots(), h)) == lowest_matching_pid(
                    procs@,
                    name@,
                )
            },
    {
        let pid = match scan_lowest_pid(procs, name) {
            Some(pid) => pid,
            None => {
                return 0;
            },
        };
        let n = self.slots.len();
        let mut i: usize = 0;
        while i < n
            invariant
                i <= n,
                n == self.slots@.len(),
                self.slots@ == old(self).slots@,
                old(self).wf(),
                Some(pid) == lowest_matching_pid(procs@, name@),
                first_free_slot(self.slots@) == first_free_slot_from(self.slots@, i as int),
            decreases n - i,
        {
            let s = self.slots[i];
            if !s.occupied && s.generation < GENERATION_LIMIT {
                let ghost slots0 = self.slots@;
                self.slots.set(i, Slot { generation: s.generation, pid, occupied: true });
                let h = ((i as u64) << 32) | (s.generation as u64);
                proof {
                    lemma_pack_handle(i as u64, s.generation as u64);
                    assert(first_free_slot(slots0) == Some(i as int));
                    assert(self.slots@ =~= slots0.update(
                        i as int,
                        Slot { generation: s.generation, pid, occupied: true },
                    ));
                }
                return h;
            }
            i = i + 1;
        }
        if (n as u64) < SLOT_LIMIT {
            let ghost slots0 = self.slots@;
            self.slots.push(Slot { generation: 1, pid, occupied: true });
            let h = ((n as u64) << 32) | 1u64;
            proof {
                lemma_pack_handle(n as u64, 1);
                assert(first_free_slot(slots0) is None);
            }
            h
        } else {
            0
        }
    }

    /// Releases the attachment `h` denotes. Idempotent: a handle that is not
    /// live — the sentinel `0`, a never-issued value, or one already detached —
    /// leaves the table unchanged. A detached handle is retired for good.
    pub fn detach(&mut self, h: u64)
        requires
            old(self).wf(),
        ensures
            final(self).wf(),
            final(self).slots() == spec_detach(old(self).slots(), h),
            !handle_live(final(self).slots(), h),
            handle_live(old(self).slots(), h) ==> handle_retired(final(self).slots(), h),
    {
        let idx = (h >> 32) as usize;
        let gen = (h & 0xFFFF_FFFF) as u32;
        proof {
            assert(h >> 32 < 0x1_0000_0000u64 && (h & 0xFFFF_FFFFu64) < 0x1_0000_0000u64)
                by (bit_vector);
        }
        if idx < self.slots.len() {
            let s = self.slots[idx];
            if s.occupied && s.generation == gen {
                let bumped: u32 = if s.generation == GENERATION_LIMIT {
                    s.generation
                } else {
                    s.generation + 1
                };
                let ghost slots0 = self.slots@;
                self.slots.set(idx, Slot { generation: bumped, pid: s.pid, occupied: false });
                proof {
                    assert(self.slots@ =~= spec_detach(slots0, h));
                }
            }
        }
    }

    /// The pid a live handle is attached to, or `None` for anything else.
    pub fn lookup(&self, h: u64) -> (r: Option<u64>)
        requires
            self.wf(),
        ensures
            r == if handle_live(self.slots(), h) {
                Some(handle_pid(self.slots(), h))
            } else {
                None::<u64>
            },
    {
        let idx = (h >> 32) as usize;
        let gen = (h & 0xFFFF_FFFF) as u32;
        proof {
            assert(h >> 32 < 0x1_0000_0000u64 && (h & 0xFFFF_FFFFu64) < 0x1_0000_0000u64)
                by (bit_vector);
        }
        if idx < self.slots.len() {
            let s = self.slots[idx];
            if s.occupied && s.generation == gen {
                return Some(s.pid);
            }
        }
        None
    }

    /// The base load address of the module named `name` in the process `h` is
    /// attached to; `0` when the handle is not live, the process is gone, or
    /// no module matches (lowest base wins among namesakes).
    pub fn get_module(&self, procs: &Vec<Process>, h: u64, name: &[u8]) -> (base: u64)
        requires
            self.wf(),
        ensures
            base == spec_get_module(self.slots(), procs@, h, name@),
    {
        let pid = match self.lookup(h) {
            Some(pid) => pid,
            None => {
                return 0;
            },
        };
        let n = procs.len();
        let mut i: usize = 0;
        proof {
            assert(procs@.skip(0) =~= procs@);
        }
        while i < n
            invariant
                i <= n,
                n == procs@.len(),
                self.wf(),
                handle_live(self.slots(), h),
                handle_pid(self.slots(), h) == pid,
                find_process(procs@, pid) == find_process(procs@.skip(i as int), pid),
            decreases n - i,
        {
            let ghost pre = procs@.skip(i as int);
            proof {
                assert(pre[0] == procs@[i as int]);
                assert(pre.skip(1) =~= procs@.skip(i as int + 1));
            }
            if procs[i].pid == pid {
                proof {
                    assert(find_process(procs@, pid) == Some(procs@[i as int]));
                }
                return match scan_lowest_base(&procs[i].modules, name) {
                    Some(b) => b,
                    None => 0,
                };
            }
            i = i + 1;
        }
        0
    }

    /// Copies `len` bytes from absolute address `addr` of the process `h` is
    /// attached to. `None` on any failure: handle not live, process gone, or
    /// the range not covered by a single mapped module.
    pub fn read_mem(&self, procs: &Vec<Process>, h: u64, addr: u64, len: usize) -> (r: Option<
        Vec<u8>,
    >)
        requires
            self.wf(),
        ensures
            r is Some <==> spec_read_mem(self.slots(), procs@, h, addr as int, len as int)
                is Some,
            r matches Some(v) ==> Some(v@) == spec_read_mem(
                self.slots(),
                procs@,
                h,
                addr as int,
                len as int,
            ),
    {
        let pid = match self.lookup(h) {
            Some(pid) => pid,
            None => {
                return None;
            },
        };
        let n = procs.len();
        let mut i: usize = 0;
        proof {
            assert(procs@.skip(0) =~= procs@);
        }
        while i < n
            invariant
                i <= n,
                n == procs@.len(),
                self.wf(),
                handle_live(self.slots(), h),
                handle_pid(self.slots(), h) == pid,
                find_process(procs@, pid) == find_process(procs@.skip(i as int), pid),
            decreases n - i,
        {
            let ghost pre = procs@.skip(i as int);
            proof {
                assert(pre[0] == procs@[i as int]);
                assert(pre.skip(1) =~= procs@.skip(i as int + 1));
            }
            if procs[i].pid == pid {
                proof {
                    assert(find_process(procs@, pid) == Some(procs@[i as int]));
                }
                return copy_bytes(&procs[i].modules, addr, len);
            }
            i = i + 1;
        }
        None
    }
}

} // verus!
