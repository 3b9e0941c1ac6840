//! Processes: the tree of processes by pid, their memory zones and their
//! signals.

use std::collections::{BTreeMap, VecDeque};

use vstd::prelude::*;

use crate::errno::ErrNo;
use crate::memory::paging::bitmap::Bitmaps;
use crate::memory::paging::page_directory::{
    first_run, frames_outcome, frames_pre, kframes_outcome, kframes_pre, slot_end, tables_start, vaddr_of, PageDirectory,
    KERNEL_PD_INDEX,
};
use crate::memory::{kframes_succeed, zone_name, MemoryZone, TypeZone};
use crate::proc::signal::{Signal, SignalHandler, SignalType};
use crate::proc::task::Task;
use crate::proc::Id;

verus! {

pub type Pid = Id;

/// The state of a process.
#[derive(Debug, Clone, Copy, PartialEq, Eq, Structural)]
pub enum Status {
    Disable,
    Run,
    Zombie,
    Thread,
}

/// A process: its parent and its children are named by pid, and found in
/// the `ProcessTree`.
pub struct Process {
    pub pid: Pid,
    pub exe: std::string::String,
    pub state: Status,
    pub parent: Option<Pid>,
    pub childs: std::vec::Vec<Pid>,
    pub stack: MemoryZone,
    pub heap: MemoryZone,
    pub kernel_stack: MemoryZone,
    pub mem_map: std::vec::Vec<MemoryZone>,
    pub signals: std::vec::Vec<Signal>,
    pub signal_handlers: std::vec::Vec<SignalHandler>,
    pub owner: Id,
}

/// The processes of the system by pid: a process names its parent and
/// its children by their pids.
pub struct ProcessTree {
    pub procs: BTreeMap<Pid, Process>,
    pub next_pid: Pid,
}

/// The number of processes below the children `childs` in `m`: each child
/// and, while `fuel` lasts, the processes below it.
pub open spec fn descendants(m: Map<Pid, Process>, childs: Seq<Pid>, fuel: nat) -> nat
    decreases fuel, childs.len(),
{
    if childs.len() == 0 {
        0
    } else {
        let c = childs.last();
        descendants(m, childs.drop_last(), fuel) + 1 + if fuel > 0 && m.contains_key(c) {
            descendants(m, m[c].childs@, (fuel - 1) as nat)
        } else {
            0
        }
    }
}

proof fn lemma_descendants_prefix(m: Map<Pid, Process>, s: Seq<Pid>, fuel: nat, i: int)
    requires
        0 <= i <= s.len(),
    ensures
        descendants(m, s.take(i), fuel) <= descendants(m, s, fuel),
    decreases s.len() - i,
{
    if i < s.len() {
        lemma_descendants_prefix(m, s, fuel, i + 1);
        assert(s.take(i + 1).drop_last() =~= s.take(i));
    } else {
        assert(s.take(i) =~= s);
    }
}

/// `b` is `a` but for its state, its parent, its children and its
/// signals.
pub open spec fn same_core(a: Process, b: Process) -> bool {
    &&& b.pid == a.pid
    &&& b.exe@ == a.exe@
    &&& b.stack == a.stack
    &&& b.heap == a.heap
    &&& b.kernel_stack == a.kernel_stack
    &&& b.mem_map@ == a.mem_map@
    &&& b.signal_handlers@ == a.signal_handlers@
    &&& b.owner == a.owner
}

/// `b` is `a` but for its kernel stack, stack and heap.
pub open spec fn same_but_zones(a: Process, b: Process) -> bool {
    &&& b.pid == a.pid
    &&& b.exe@ == a.exe@
    &&& b.state == a.state
    &&& b.parent == a.parent
    &&& b.owner == a.owner
    &&& b.childs@ == a.childs@
    &&& b.signals@ == a.signals@
    &&& b.signal_handlers@ == a.signal_handlers@
    &&& b.mem_map@ == a.mem_map@
}

/// `b` is `a` with signal `s` added.
pub open spec fn signalled(a: Process, b: Process, s: Signal) -> bool {
    &&& same_core(a, b)
    &&& b.state == a.state
    &&& b.parent == a.parent
    &&& b.childs@ == a.childs@
    &&& b.signals@ == a.signals@.push(s)
}

/// Signal `s` is one of type `sigtype`, from `sender` when one is given.
pub open spec fn wanted(s: Signal, sender: Option<Id>, sigtype: SignalType) -> bool {
    &&& s.sigtype == sigtype
    &&& sender matches Some(pid) ==> s.sender == pid
}

/// Taking the oldest wanted signal out of `old` leaves `new` and gives
/// `res`: that signal, or `EAGAIN` when none is wanted.
pub open spec fn takes_first(
    old: Seq<Signal>,
    new: Seq<Signal>,
    res: Result<Signal, ErrNo>,
    sender: Option<Id>,
    sigtype: SignalType,
) -> bool {
    match res {
        Ok(s) => exists|i: int| {
            &&& 0 <= i < old.len()
            &&& #[trigger] old[i] == s
            &&& wanted(s, sender, sigtype)
            &&& forall|j: int| 0 <= j < i ==> !wanted(#[trigger] old[j], sender, sigtype)
            &&& new == old.remove(i)
        },
        Err(e) => {
            &&& e == ErrNo::EAGAIN
            &&& forall|j: int| 0 <= j < old.len() ==> !wanted(#[trigger] old[j], sender, sigtype)
            &&& new == old
        },
    }
}

/// The parent of process `pid` of `m`.
pub open spec fn parent_of(m: Map<Pid, Process>, pid: Pid) -> Pid {
    m[pid].parent.unwrap()
}

/// Process `pid` of `m` can leave the tree: it has a parent other than
/// itself, in `m`, that lists it among its children.
pub open spec fn removable(m: Map<Pid, Process>, pid: Pid) -> bool {
    &&& m.contains_key(pid)
    &&& m[pid].parent is Some
    &&& parent_of(m, pid) != pid
    &&& m.contains_key(parent_of(m, pid))
    &&& m[parent_of(m, pid)].childs@.contains(pid)
}

/// Process `pid` of `m` can become a zombie: it has a parent other than
/// itself, in `m`, and neither of them is among its children.
pub open spec fn zombifiable(m: Map<Pid, Process>, pid: Pid) -> bool {
    &&& m.contains_key(pid)
    &&& m[pid].parent is Some
    &&& parent_of(m, pid) != pid
    &&& m.contains_key(parent_of(m, pid))
    &&& forall|i: int| 0 <= i < m[pid].childs@.len() ==> #[trigger] m[pid].childs@[i] != pid && m[pid].childs@[i]
        != parent_of(m, pid)
}

/// `i` is the first place of `x` in `s`.
pub open spec fn first_at(s: Seq<Pid>, x: Pid, i: int) -> bool {
    &&& 0 <= i < s.len()
    &&& s[i] == x
    &&& forall|j: int| 0 <= j < i ==> s[j] != x
}

/// The signals of type `SigChld` among `s`, in order.
pub open spec fn child_signals(s: Seq<Signal>) -> Seq<Signal>
    decreases s.len(),
{
    if s.len() == 0 {
        Seq::empty()
    } else if s.last().sigtype == SignalType::SigChld {
        child_signals(s.drop_last()).push(s.last())
    } else {
        child_signals(s.drop_last())
    }
}

/// `b` is `a` with parent `pp`.
pub open spec fn reparented(a: Process, b: Process, pp: Pid) -> bool {
    &&& same_core(a, b)
    &&& b.state == a.state
    &&& b.parent == Some(pp)
    &&& b.childs@ == a.childs@
    &&& b.signals@ == a.signals@
}

/// `f` is `m` after process `pid` left it and the first place it had
/// among its parent's children.
pub open spec fn removed(m: Map<Pid, Process>, f: Map<Pid, Process>, pid: Pid) -> bool {
    let pp = parent_of(m, pid);
    &&& f.dom() == m.dom().remove(pid)
    &&& forall|k: Pid| k != pp && f.contains_key(k) ==> #[trigger] f[k] == m[k]
    &&& same_core(m[pp], f[pp])
    &&& f[pp].state == m[pp].state
    &&& f[pp].parent == m[pp].parent
    &&& f[pp].signals@ == m[pp].signals@
    &&& exists|i: int| first_at(m[pp].childs@, pid, i) && f[pp].childs@ == m[pp].childs@.remove(i)
}

/// `f` is `m` after process `pid` became a zombie with status `wstatus`:
/// its children went to its parent, last one first, and name it as their
/// parent; its `SigChld` signals went to its parent too, followed by one
/// from it carrying `wstatus`.
pub open spec fn zombified(m: Map<Pid, Process>, f: Map<Pid, Process>, pid: Pid, wstatus: i32) -> bool {
    let p = m[pid];
    let pp = parent_of(m, pid);
    &&& f.dom() == m.dom()
    &&& same_core(p, f[pid])
    &&& f[pid].state == Status::Zombie
    &&& f[pid].parent == p.parent
    &&& f[pid].childs@.len() == 0
    &&& f[pid].signals@.len() == 0
    &&& same_core(m[pp], f[pp])
    &&& f[pp].state == m[pp].state
    &&& f[pp].parent == m[pp].parent
    &&& f[pp].childs@ == m[pp].childs@ + p.childs@.reverse()
    &&& f[pp].signals@ == m[pp].signals@ + child_signals(p.signals@) + seq![
        Signal { sender: p.pid, sigtype: SignalType::SigChld, wstatus },
    ]
    &&& forall|k: Pid| #![trigger f[k]]
        m.contains_key(k) && k != pid && k != pp && p.childs@.contains(k) ==> reparented(m[k], f[k], pp)
    &&& forall|k: Pid| #![trigger f[k]] m.contains_key(k) && k != pid && k != pp && !p.childs@.contains(k) ==> f[k] == m[k]
}

/// `f` is `m` after the running process `running` took a signal of type
/// `signal` (the oldest one when `pid` is -1, else the oldest one from
/// `pid`), giving `res`.
pub open spec fn signal_taken(
    m: Map<Pid, Process>,
    f: Map<Pid, Process>,
    running: Pid,
    pid: Id,
    signal: SignalType,
    res: Result<Signal, ErrNo>,
) -> bool {
    &&& f.dom() == m.dom()
    &&& forall|k: Pid| k != running && m.contains_key(k) ==> #[trigger] f[k] == m[k]
    &&& same_core(m[running], f[running])
    &&& f[running].state == m[running].state
    &&& f[running].parent == m[running].parent
    &&& f[running].childs@ == m[running].childs@
    &&& pid != -1 && !m.contains_key(pid) ==> res == Err::<Signal, ErrNo>(ErrNo::ESRCH) && f[running].signals@
        == m[running].signals@
    &&& pid == -1 || m.contains_key(pid) ==> takes_first(
        m[running].signals@,
        f[running].signals@,
        res,
        if pid == -1 {
            None
        } else {
            Some(pid)
        },
        signal,
    )
}

/// Every process of `m` is filed under its own pid, and every pid is
/// below `next_pid`, the next one to hand out.
pub open spec fn tree_wf(m: Map<Pid, Process>, next_pid: Pid) -> bool {
    forall|k: Pid| #[trigger] m.contains_key(k) ==> m[k].pid == k && k < next_pid
}

/// A map whose processes all come from `m`, with their pids, is
/// well-formed with `m`'s next pid.
pub proof fn lemma_tree_wf_kept(m: Map<Pid, Process>, f: Map<Pid, Process>, next_pid: Pid)
    requires
        tree_wf(m, next_pid),
        forall|k: Pid| #[trigger] f.contains_key(k) ==> m.contains_key(k) && f[k].pid == m[k].pid,
    ensures
        tree_wf(f, next_pid),
{
    assert forall|k: Pid| #[trigger] f.contains_key(k) implies f[k].pid == k && k < next_pid by {
        assert(m.contains_key(k));
    }
}

/// Making a process a zombie keeps the tree well-formed.
pub proof fn lemma_zombified_wf(m: Map<Pid, Process>, f: Map<Pid, Process>, pid: Pid, wstatus: i32, next_pid: Pid)
    requires
        tree_wf(m, next_pid),
        zombifiable(m, pid),
        zombified(m, f, pid, wstatus),
    ensures
        tree_wf(f, next_pid),
{
    let pp = parent_of(m, pid);
    assert forall|k: Pid| #[trigger] f.contains_key(k) implies m.contains_key(k) && f[k].pid == m[k].pid by {
        if k == pid || k == pp {
        } else if m[pid].childs@.contains(k) {
            assert(reparented(m[k], f[k], pp));
        } else {
            assert(f[k] == m[k]);
        }
    }
    lemma_tree_wf_kept(m, f, next_pid);
}

/// Removing a process keeps the tree well-formed.
pub proof fn lemma_removed_wf(m: Map<Pid, Process>, f: Map<Pid, Process>, pid: Pid, next_pid: Pid)
    requires
        tree_wf(m, next_pid),
        removable(m, pid),
        removed(m, f, pid),
    ensures
        tree_wf(f, next_pid),
{
    let pp = parent_of(m, pid);
    assert forall|k: Pid| #[trigger] f.contains_key(k) implies m.contains_key(k) && f[k].pid == m[k].pid by {
        if k != pp {
            assert(f[k] == m[k]);
        }
    }
    lemma_tree_wf_kept(m, f, next_pid);
}

/// Taking a signal keeps the tree well-formed.
pub proof fn lemma_signal_taken_wf(
    m: Map<Pid, Process>,
    f: Map<Pid, Process>,
    running: Pid,
    pid: Id,
    signal: SignalType,
    res: Result<Signal, ErrNo>,
    next_pid: Pid,
)
    requires
        tree_wf(m, next_pid),
        m.contains_key(running),
        signal_taken(m, f, running, pid, signal, res),
    ensures
        tree_wf(f, next_pid),
{
    assert forall|k: Pid| #[trigger] f.contains_key(k) implies m.contains_key(k) && f[k].pid == m[k].pid by {
        if k != running {
            assert(f[k] == m[k]);
        }
    }
    lemma_tree_wf_kept(m, f, next_pid);
}

/// Whether `pid` is among `pids`.
fn holds_pid(pids: &Vec<Pid>, pid: Pid) -> (res: bool)
    ensures
        res == pids@.contains(pid),
{
    let mut i: usize = 0;
    while i < pids.len()
        invariant
            i <= pids@.len(),
            forall|k: int| 0 <= k < i ==> pids@[k] != pid,
        decreases pids@.len() - i,
    {
        if pids[i] == pid {
            return true;
        }
        i += 1;
    }
    false
}

impl ProcessTree {
    /// Whether process `pid` can leave the tree (see `removable`).
    pub fn can_remove(&self, pid: Pid) -> (res: bool)
        ensures
            res == removable(self.procs@, pid),
    {
        broadcast use vstd::std_specs::btree::group_btree_axioms;
        match self.procs.get(&pid) {
            None => false,
            Some(process) => match process.parent {
                None => false,
                Some(pp) => {
                    if pp == pid {
                        return false;
                    }
                    match self.procs.get(&pp) {
                        None => false,
                        Some(parent) => holds_pid(&parent.childs, pid),
                    }
                },
            },
        }
    }

    /// Whether process `pid` can become a zombie (see `zombifiable`).
    pub fn can_zombify(&self, pid: Pid) -> (res: bool)
        ensures
            res == zombifiable(self.procs@, pid),
    {
        broadcast use vstd::std_specs::btree::group_btree_axioms;
        match self.procs.get(&pid) {
            None => false,
            Some(process) => match process.parent {
                None => false,
                Some(pp) => {
                    if pp == pid || !self.procs.contains_key(&pp) {
                        return false;
                    }
                    let mut i: usize = 0;
                    while i < process.childs.len()
                        invariant
                            self.procs@.contains_key(pid),
                            *process == self.procs@[pid],
                            process.parent == Some(pp),
                            i <= process.childs@.len(),
                            forall|k: int| 0 <= k < i ==> #[trigger] process.childs@[k] != pid && process.childs@[k] != pp,
                        decreases process.childs@.len() - i,
                    {
                        if process.childs[i] == pid || process.childs[i] == pp {
                            proof {
                                assert(self.procs@[pid].childs@[i as int] == process.childs@[i as int]);
                            }
                            return false;
                        }
                        i += 1;
                    }
                    true
                },
            },
        }
    }
}

impl ProcessTree {
    /// The tree is well-formed (see `tree_wf`).
    pub open spec fn wf(&self) -> bool {
        tree_wf(self.procs@, self.next_pid)
    }

    /// No process; the next pid is 0.
    pub fn new() -> (res: Self)
        ensures
            res.wf(),
            res.procs@ == Map::<Pid, Process>::empty(),
            res.next_pid == 0,
    {
        ProcessTree { procs: BTreeMap::new(), next_pid: 0 }
    }

    /// Adds `process` under its pid, in place of any process with that pid;
    /// the next pid to hand out moves past it.
    pub fn insert(&mut self, process: Process)
        requires
            old(self).wf(),
            0 <= process.pid < i32::MAX,
        ensures
            final(self).wf(),
            final(self).procs@ == old(self).procs@.insert(process.pid, process),
            final(self).next_pid == if process.pid < old(self).next_pid {
                old(self).next_pid as int
            } else {
                process.pid + 1
            },
    {
        broadcast use vstd::std_specs::btree::group_btree_axioms;
        let pid = process.pid;
        if pid >= self.next_pid {
            self.next_pid = pid + 1;
        }
        self.procs.insert(pid, process);
    }

    /// The number of processes below the children `childs`, looking `fuel`
    /// levels deep.
    fn count_below(&self, childs: &std::vec::Vec<Pid>, fuel: usize) -> (res: usize)
        requires
            descendants(self.procs@, childs@, fuel as nat) <= usize::MAX,
        ensures
            res == descendants(self.procs@, childs@, fuel as nat),
        decreases fuel, childs@.len(),
    {
        broadcast use vstd::std_specs::btree::group_btree_axioms;
        let mut ret: usize = 0;
        let mut i: usize = 0;
        proof {
            assert(childs@.take(0) =~= Seq::<Pid>::empty());
        }
        while i < childs.len()
            invariant
                i <= childs@.len(),
                descendants(self.procs@, childs@, fuel as nat) <= usize::MAX,
                ret == descendants(self.procs@, childs@.take(i as int), fuel as nat),
            decreases childs@.len() - i,
        {
            let c = childs[i];
            proof {
                let t = childs@.take(i + 1);
                assert(t.drop_last() =~= childs@.take(i as int));
                assert(t.last() == c);
                lemma_descendants_prefix(self.procs@, childs@, fuel as nat, i + 1);
            }
            let mut below: usize = 0;
            if fuel > 0 {
                match self.procs.get(&c) {
                    Some(child) => {
                        below = self.count_below(&child.childs, fuel - 1);
                    },
                    None => {},
                }
            }
            ret = ret + 1;
            ret = ret + below;
            i += 1;
        }
        proof {
            assert(childs@.take(childs@.len() as int) =~= childs@);
        }
        ret
    }
}

/// The zone that `MemoryZone::init` gives, with `ztype`, `size`, `flags`
/// and `kphys`, and the directory and frames after it.
pub open spec fn zone_made(
    old_pd: (Seq<u32>, Seq<Seq<u32>>),
    old_used: Set<int>,
    ztype: TypeZone,
    size: usize,
    flags: u32,
    kphys: bool,
    new_pd: (Seq<u32>, Seq<Seq<u32>>),
    new_used: Set<int>,
    mz: MemoryZone,
) -> bool {
    &&& mz.name == zone_name(ztype)
    &&& mz.type_zone == ztype
    &&& mz.size == size
    &&& mz.flags == flags
    &&& mz.kphys == kphys
    &&& kphys ==> kframes_outcome(old_pd, old_used, size / 4096, flags, new_pd, new_used, Ok(mz.offset))
    &&& !kphys ==> frames_outcome(old_pd, old_used, size / 4096, flags, new_pd, new_used, Ok(mz.offset))
}

/// A page run that starts at flat entry `l` and ends by `slot_end`, or one
/// that starts a run of fresh tables at directory entry `k`, ends inside
/// the 32-bit address space.
proof fn lemma_run_fits(va: int, nb: int, l: int, k: int, flat: bool)
    requires
        nb >= 0,
        flat ==> 0 <= l && l + nb <= slot_end() && va == vaddr_of(l / 1024, l % 1024),
        !flat ==> va == vaddr_of(k, 0) && 0 <= k && (if nb / 1024 + 1 == 1 {
            k < 1024
        } else {
            k + nb / 1024 + 1 < 1024
        }),
    ensures
        va + nb * 4096 <= u32::MAX,
{
    if flat {
        vstd::arithmetic::div_mod::lemma_fundamental_div_mod(l, 1024);
        let q = l / 1024;
        let r = l % 1024;
        assert(va == l * 4096);
    } else {
        vstd::arithmetic::div_mod::lemma_fundamental_div_mod(nb, 1024);
        let q = nb / 1024;
        let r = nb % 1024;
        assert(nb * 4096 == q * 0x400000 + r * 4096);
    }
}

/// A zone that `MemoryZone::init` makes ends inside the 32-bit address
/// space: its offset plus its size fits in a `u32`.
pub proof fn lemma_zone_fits(
    old_pd: (Seq<u32>, Seq<Seq<u32>>),
    old_used: Set<int>,
    ztype: TypeZone,
    size: usize,
    flags: u32,
    kphys: bool,
    new_pd: (Seq<u32>, Seq<Seq<u32>>),
    new_used: Set<int>,
    mz: MemoryZone,
)
    requires
        size % 4096 == 0,
        zone_made(old_pd, old_used, ztype, size, flags, kphys, new_pd, new_used, mz),
    ensures
        mz.offset + mz.size <= u32::MAX,
{
    let nb = (size / 4096) as usize;
    let va = mz.offset as int;
    if kphys {
        if exists|l: int| #[trigger] first_run(old_pd, KERNEL_PD_INDEX * 1024, nb as int, l) && va == vaddr_of(l / 1024, l % 1024) {
            let l = choose|l: int| #[trigger] first_run(old_pd, KERNEL_PD_INDEX * 1024, nb as int, l) && va == vaddr_of(l / 1024, l % 1024);
            lemma_run_fits(va, nb as int, l, 0, true);
        } else {
            let k = choose|k: int| #[trigger] tables_start(old_pd.0, (nb / 1024 + 1) as int, k) && va == vaddr_of(k, 0);
            lemma_run_fits(va, nb as int, 0, k, false);
        }
    } else {
        if exists|l: int| #[trigger] first_run(old_pd, 0, nb as int, l) && va == vaddr_of(l / 1024, l % 1024) {
            let l = choose|l: int| #[trigger] first_run(old_pd, 0, nb as int, l) && va == vaddr_of(l / 1024, l % 1024);
            lemma_run_fits(va, nb as int, l, 0, true);
        } else {
            let k = choose|k: int| #[trigger] tables_start(old_pd.0, (nb / 1024 + 1) as int, k) && va == vaddr_of(k, 0);
            lemma_run_fits(va, nb as int, 0, k, false);
        }
    }
}

/// When a zone of `size` bytes can be made.
pub open spec fn zone_can_be_made(
    pd: (Seq<u32>, Seq<Seq<u32>>),
    used: Set<int>,
    free: int,
    size: usize,
    kphys: bool,
) -> bool {
    &&& size % 4096 == 0
    &&& kphys ==> kframes_pre(pd, free, size / 4096) && kframes_succeed(pd, used, size / 4096)
    &&& !kphys ==> frames_pre(pd, free, size / 4096) && size >= 4096
}

impl Process {
    /// A disabled process with pid 0, nothing mapped and no children,
    /// signals or handlers.
    pub fn new() -> (res: Self)
        ensures
            res.pid == 0,
            res.state == Status::Disable,
            res.parent is None,
            res.childs@.len() == 0,
            res.mem_map@.len() == 0,
            res.signals@.len() == 0,
            res.signal_handlers@.len() == 0,
            res.owner == 0,
            res.stack.type_zone == TypeZone::Unassigned,
            res.heap.type_zone == TypeZone::Unassigned,
            res.kernel_stack.type_zone == TypeZone::Unassigned,
    {
        Process {
            pid: 0,
            exe: std::string::String::new(),
            state: Status::Disable,
            parent: None,
            childs: std::vec::Vec::new(),
            stack: MemoryZone::new(),
            heap: MemoryZone::new(),
            kernel_stack: MemoryZone::new(),
            mem_map: std::vec::Vec::new(),
            signals: std::vec::Vec::new(),
            signal_handlers: std::vec::Vec::new(),
            owner: 0,
        }
    }

    /// The number of processes below this one in `tree`: its children and
    /// theirs, as deep as there are processes.
    pub fn get_nb_subprocess(&self, tree: &ProcessTree) -> (res: usize)
        requires
            descendants(tree.procs@, self.childs@, tree.procs@.len()) <= usize::MAX,
        ensures
            res == descendants(tree.procs@, self.childs@, tree.procs@.len()),
    {
        broadcast use vstd::std_specs::btree::group_btree_axioms;
        let n = tree.procs.len();
        tree.count_below(&self.childs, n)
    }

    /// The number of processes in `tree`.
    pub fn get_nb_process(tree: &ProcessTree) -> (res: usize)
        ensures
            res == tree.procs@.len(),
    {
        broadcast use vstd::std_specs::btree::group_btree_axioms;
        tree.procs.len()
    }

    /// The pid of the running process: that of the first task of `tasks`.
    pub fn get_running_process(tasks: &VecDeque<Task>) -> (res: Pid)
        requires
            tasks@.len() > 0,
        ensures
            res == tasks@[0].process,
    {
        Task::get_running_task(tasks).process
    }

    /// The process of `tree` with pid `pid`; `ESRCH` when there is none.
    pub fn search_from_pid(tree: &ProcessTree, pid: Id) -> (res: Result<&Process, ErrNo>)
        ensures
            tree.procs@.contains_key(pid) ==> res == Ok::<&Process, ErrNo>(&tree.procs@[pid]),
            !tree.procs@.contains_key(pid) ==> res == Err::<&Process, ErrNo>(ErrNo::ESRCH),
    {
        broadcast use vstd::std_specs::btree::group_btree_axioms;
        match tree.procs.get(&pid) {
            Some(process) => Ok(process),
            None => Err(ErrNo::ESRCH),
        }
    }

    /// Makes this process a running child of `parent`: the next pid, the
    /// parent's executable and owner.
    pub fn init(&mut self, parent: &Process, next_pid: &mut Pid)
        requires
            *old(next_pid) < i32::MAX,
        ensures
            final(self).pid == *old(next_pid),
            final(self).exe@ == parent.exe@,
            final(self).state == Status::Run,
            final(self).parent == Some(parent.pid),
            final(self).owner == parent.owner,
            final(self).childs@ == old(self).childs@,
            final(self).signals@ == old(self).signals@,
            final(self).signal_handlers@ == old(self).signal_handlers@,
            final(self).mem_map@ == old(self).mem_map@,
            final(self).stack == old(self).stack,
            final(self).heap == old(self).heap,
            final(self).kernel_stack == old(self).kernel_stack,
            *final(next_pid) == *old(next_pid) + 1,
    {
        self.pid = *next_pid;
        self.exe = parent.exe.clone();
        self.state = Status::Run;
        self.parent = Some(parent.pid);
        self.owner = parent.owner;
        *next_pid = *next_pid + 1;
    }

    /// Maps a stack of `size` bytes for the process.
    pub fn setup_stack(&mut self, size: usize, flags: u32, kphys: bool, pd: &mut PageDirectory, physmap: &mut Bitmaps)
        requires
            old(pd).wf(),
            old(physmap).wf(),
            zone_can_be_made(old(pd)@, old(physmap)@, old(physmap).free_count(), size, kphys),
        ensures
            final(pd).wf(),
            final(physmap).wf(),
            final(physmap).counter() == final(physmap)@.len(),
            zone_made(old(pd)@, old(physmap)@, TypeZone::Stack, size, flags, kphys, final(pd)@, final(physmap)@, final(self).stack),
            same_but_zones(*old(self), *final(self)),
            final(self).heap == old(self).heap,
            final(self).kernel_stack == old(self).kernel_stack,
    {
        self.stack = MemoryZone::init(TypeZone::Stack, size, flags, kphys, pd, physmap);
    }

    /// Maps a heap of `size` bytes for the process.
    pub fn setup_heap(&mut self, size: usize, flags: u32, kphys: bool, pd: &mut PageDirectory, physmap: &mut Bitmaps)
        requires
            old(pd).wf(),
            old(physmap).wf(),
            zone_can_be_made(old(pd)@, old(physmap)@, old(physmap).free_count(), size, kphys),
        ensures
            final(pd).wf(),
            final(physmap).wf(),
            final(physmap).counter() == final(physmap)@.len(),
            zone_made(old(pd)@, old(physmap)@, TypeZone::Heap, size, flags, kphys, final(pd)@, final(physmap)@, final(self).heap),
            same_but_zones(*old(self), *final(self)),
            final(self).stack == old(self).stack,
            final(self).kernel_stack == old(self).kernel_stack,
    {
        self.heap = MemoryZone::init(TypeZone::Heap, size, flags, kphys, pd, physmap);
    }

    /// Maps a one-page kernel stack for the process.
    pub fn setup_kernel_stack(&mut self, flags: u32, pd: &mut PageDirectory, physmap: &mut Bitmaps)
        requires
            old(pd).wf(),
            old(physmap).wf(),
            frames_pre(old(pd)@, old(physmap).free_count(), 1),
        ensures
            final(pd).wf(),
            final(physmap).wf(),
            final(physmap).counter() == final(physmap)@.len(),
            zone_made(old(pd)@, old(physmap)@, TypeZone::Stack, 0x1000, flags, false, final(pd)@, final(physmap)@, final(self).kernel_stack),
            same_but_zones(*old(self), *final(self)),
            final(self).stack == old(self).stack,
            final(self).heap == old(self).heap,
    {
        self.kernel_stack = MemoryZone::init(TypeZone::Stack, 0x1000, flags, false, pd, physmap);
    }

    /// Adds `mz` at the end of the memory map.
    pub fn add_memory_zone(&mut self, mz: MemoryZone)
        ensures
            final(self).mem_map@ == old(self).mem_map@.push(mz),
            final(self).pid == old(self).pid,
            final(self).signals@ == old(self).signals@,
    {
        self.mem_map.push(mz);
    }

    /// Takes the oldest signal of type `signal`, from `sender` when one is
    /// given.
    fn take_signal(&mut self, sender: Option<Id>, signal: SignalType) -> (res: Result<Signal, ErrNo>)
        ensures
            same_core(*old(self), *final(self)),
            final(self).state == old(self).state,
            final(self).parent == old(self).parent,
            final(self).childs@ == old(self).childs@,
            takes_first(old(self).signals@, final(self).signals@, res, sender, signal),
    {
        let mut i: usize = 0;
        while i < self.signals.len()
            invariant
                i <= self.signals@.len(),
                *self == *old(self),
                forall|j: int| 0 <= j < i ==> !wanted(#[trigger] old(self).signals@[j], sender, signal),
            decreases self.signals@.len() - i,
        {
            let s = self.signals[i];
            let from_sender = match sender {
                Some(pid) => s.sender == pid,
                None => true,
            };
            if s.sigtype == signal && from_sender {
                let s = self.signals.remove(i);
                assert(old(self).signals@[i as int] == s);
                return Ok(s);
            }
            i += 1;
        }
        Err(ErrNo::EAGAIN)
    }

    /// Takes the oldest signal of type `signal`; `EAGAIN` when there is none.
    pub fn get_signal(&mut self, signal: SignalType) -> (res: Result<Signal, ErrNo>)
        ensures
            same_core(*old(self), *final(self)),
            final(self).state == old(self).state,
            final(self).parent == old(self).parent,
            final(self).childs@ == old(self).childs@,
            takes_first(old(self).signals@, final(self).signals@, res, None, signal),
    {
        self.take_signal(None, signal)
    }

    /// Takes the oldest signal of type `signal` sent by `pid`: `ESRCH` when
    /// `tree` has no process `pid`, `EAGAIN` when it sent no such signal.
    pub fn get_signal_from_pid(&mut self, tree: &ProcessTree, pid: Id, signal: SignalType) -> (res: Result<Signal, ErrNo>)
        ensures
            same_core(*old(self), *final(self)),
            final(self).state == old(self).state,
            final(self).parent == old(self).parent,
            final(self).childs@ == old(self).childs@,
            !tree.procs@.contains_key(pid) ==> res == Err::<Signal, ErrNo>(ErrNo::ESRCH) && final(self).signals@
                == old(self).signals@,
            tree.procs@.contains_key(pid) ==> takes_first(old(self).signals@, final(self).signals@, res, Some(pid), signal),
    {
        broadcast use vstd::std_specs::btree::group_btree_axioms;
        if !tree.procs.contains_key(&pid) {
            return Err(ErrNo::ESRCH);
        }
        self.take_signal(Some(pid), signal)
    }

    /// Takes a signal of type `signal` for the running process `running` of
    /// `tree`: the oldest one when `pid` is -1, else the oldest one from
    /// process `pid` (`ESRCH` when there is no such process).
    pub fn get_signal_running_process(tree: &mut ProcessTree, running: Pid, pid: Id, signal: SignalType) -> (res: Result<Signal, ErrNo>)
        requires
            old(tree).procs@.contains_key(running),
            pid == -1 || pid > 0,
        ensures
            final(tree).next_pid == old(tree).next_pid,
            signal_taken(old(tree).procs@, final(tree).procs@, running, pid, signal, res),
            old(tree).wf() ==> final(tree).wf(),
    {
        broadcast use vstd::std_specs::btree::group_btree_axioms;
        let present = tree.procs.contains_key(&pid);
        let mut process = tree.procs.remove(&running).unwrap();
        let res = if pid == -1 {
            process.take_signal(None, signal)
        } else if !present {
            Err(ErrNo::ESRCH)
        } else {
            process.take_signal(Some(pid), signal)
        };
        tree.procs.insert(running, process);
        assert(final(tree).procs@.dom() =~= old(tree).procs@.dom());
        proof {
            if old(tree).wf() {
                assert(signal_taken(old(tree).procs@, tree.procs@, running, pid, signal, res));
                lemma_signal_taken_wf(old(tree).procs@, tree.procs@, running, pid, signal, res, tree.next_pid);
            }
        }
        res
    }

    /// Takes process `pid` out of `tree` and out of its parent's children
    /// (the first place it has there).
    pub fn remove(tree: &mut ProcessTree, pid: Pid)
        requires
            old(tree).wf(),
            removable(old(tree).procs@, pid),
        ensures
            final(tree).wf(),
            final(tree).next_pid == old(tree).next_pid,
            removed(old(tree).procs@, final(tree).procs@, pid),
    {
        broadcast use vstd::std_specs::btree::group_btree_axioms;
        let ghost m = tree.procs@;
        let process = tree.procs.remove(&pid).unwrap();
        let pp = process.parent.unwrap();
        let mut parent = tree.procs.remove(&pp).unwrap();
        let ghost q = parent;
        let mut i: usize = 0;
        while i < parent.childs.len() && parent.childs[i] != pid
            invariant
                parent == q,
                q.childs@.contains(pid),
                i <= q.childs@.len(),
                forall|j: int| 0 <= j < i ==> q.childs@[j] != pid,
            decreases q.childs@.len() - i,
        {
            i += 1;
        }
        assert(first_at(q.childs@, pid, i as int));
        parent.childs.remove(i);
        tree.procs.insert(pp, parent);
        assert(final(tree).procs@.dom() =~= m.dom().remove(pid));
        proof {
            assert(removed(m, tree.procs@, pid));
            lemma_removed_wf(m, tree.procs@, pid, tree.next_pid);
        }
    }

    /// Makes process `pid` of `tree` a zombie that waits for its parent:
    /// its children go to its parent (last one first) and name it as their
    /// parent, its `SigChld` signals go to its parent too, and its parent
    /// gets a `SigChld` signal from it carrying `wstatus`.
    pub fn zombify(tree: &mut ProcessTree, pid: Pid, wstatus: i32)
        requires
            old(tree).wf(),
            zombifiable(old(tree).procs@, pid),
        ensures
            final(tree).wf(),
            final(tree).next_pid == old(tree).next_pid,
            zombified(old(tree).procs@, final(tree).procs@, pid, wstatus),
    {
        broadcast use vstd::std_specs::btree::group_btree_axioms;
        let ghost m = tree.procs@;
        let mut process = tree.procs.remove(&pid).unwrap();
        let pp = process.parent.unwrap();
        let mut parent = tree.procs.remove(&pp).unwrap();
        let ghost p0 = process;
        let ghost q0 = parent;
        let ghost m1 = tree.procs@;
        let ghost len = p0.childs@.len();
        while process.childs.len() > 0
            invariant
                m1 == m.remove(pid).remove(pp),
                p0 == m[pid],
                q0 == m[pp],
                len == p0.childs@.len(),
                pp == parent_of(m, pid),
                zombifiable(m, pid),
                same_core(p0, process),
                process.state == p0.state,
                process.parent == p0.parent,
                process.signals@ == p0.signals@,
                process.childs@.len() <= len,
                process.childs@ == p0.childs@.take(process.childs@.len() as int),
                parent == (Process { childs: parent.childs, ..q0 }),
                parent.childs@ == q0.childs@ + Seq::new(
                    (len - process.childs@.len()) as nat,
                    |j: int| p0.childs@[len - 1 - j],
                ),
                tree.procs@.dom() == m1.dom(),
                tree.next_pid == old(tree).next_pid,
                forall|k: Pid| #![trigger tree.procs@[k]]
                    m1.contains_key(k) && p0.childs@.skip(process.childs@.len() as int).contains(k) ==> reparented(
                        m1[k],
                        tree.procs@[k],
                        pp,
                    ),
                forall|k: Pid| #![trigger tree.procs@[k]]
                    m1.contains_key(k) && !p0.childs@.skip(process.childs@.len() as int).contains(k) ==> tree.procs@[k]
                        == m1[k],
            decreases process.childs@.len(),
        {
            let ghost n = process.childs@.len() as int;
            let ghost t0 = tree.procs@;
            let c = process.childs.pop().unwrap();
            assert(c == p0.childs@[n - 1]);
            assert(p0.childs@.skip(n - 1) =~= seq![c] + p0.childs@.skip(n));
            parent.childs.push(c);
            match tree.procs.remove(&c) {
                Some(mut child) => {
                    child.parent = Some(pp);
                    tree.procs.insert(c, child);
                },
                None => {},
            }
            assert(tree.procs@.dom() =~= m1.dom());
            assert forall|k: Pid|
                m1.contains_key(k) && !p0.childs@.skip(n - 1).contains(k) implies tree.procs@[k] == m1[k] by {
                assert(p0.childs@.skip(n - 1)[0] == c);
                if p0.childs@.skip(n).contains(k) {
                    let idx = choose|idx: int| 0 <= idx < p0.childs@.skip(n).len() && p0.childs@.skip(n)[idx] == k;
                    assert(p0.childs@.skip(n - 1)[idx + 1] == k);
                }
                assert(t0[k] == m1[k]);
            }
            assert(process.childs@ =~= p0.childs@.take(n - 1));
            assert(parent.childs@ =~= q0.childs@ + Seq::new((len - (n - 1)) as nat, |j: int| p0.childs@[len - 1 - j]));
        }
        let ghost q1 = parent;
        let ghost t1 = tree.procs@;
        let ghost slen = p0.signals@.len();
        proof {
            assert(Seq::new(len as nat, |j: int| p0.childs@[len - 1 - j]) =~= p0.childs@.reverse());
            assert(p0.signals@.take(0) =~= Seq::<Signal>::empty());
        }
        while process.signals.len() != 0
            invariant
                same_core(p0, process),
                process.state == p0.state,
                process.parent == p0.parent,
                process.childs@.len() == 0,
                slen == p0.signals@.len(),
                process.signals@.len() <= slen,
                process.signals@ == p0.signals@.skip(slen - process.signals@.len()),
                same_core(q0, parent),
                parent.state == q0.state,
                parent.parent == q0.parent,
                parent.childs@ == q1.childs@,
                parent.signals@ == q0.signals@ + child_signals(p0.signals@.take(slen - process.signals@.len())),
            decreases process.signals@.len(),
        {
            let ghost k = slen - process.signals@.len();
            let signal = process.signals.remove(0);
            assert(signal == p0.signals@[k]);
            assert(p0.signals@.take(k + 1).drop_last() =~= p0.signals@.take(k));
            assert(process.signals@ =~= p0.signals@.skip(k + 1));
            if signal.sigtype == SignalType::SigChld {
                parent.signals.push(signal);
            }
        }
        proof {
            assert(p0.signals@.take(slen as int) =~= p0.signals@);
        }
        process.state = Status::Zombie;
        Signal::send_to_process(&mut parent, process.pid, SignalType::SigChld, wstatus);
        tree.procs.insert(pid, process);
        tree.procs.insert(pp, parent);
        assert(final(tree).procs@.dom() =~= m.dom());
        proof {
            let f = final(tree).procs@;
            assert(p0.childs@.skip(0) =~= p0.childs@);
            assert forall|k: Pid| #![trigger f[k]]
                m.contains_key(k) && k != pid && k != pp && p0.childs@.contains(k) implies reparented(m[k], f[k], pp) by {
                assert(m1.contains_key(k));
                assert(f[k] == t1[k]);
            }
            assert forall|k: Pid| #![trigger f[k]]
                m.contains_key(k) && k != pid && k != pp && !p0.childs@.contains(k) implies f[k] == m[k] by {
                assert(m1.contains_key(k));
                assert(f[k] == t1[k]);
            }
            let p = m[pid];
            assert(f.dom() == m.dom());
            assert(same_core(p, f[pid]));
            assert(f[pid].state == Status::Zombie);
            assert(f[pid].parent == p.parent);
            assert(f[pid].childs@.len() == 0);
            assert(f[pid].signals@.len() == 0);
            assert(same_core(m[pp], f[pp]));
            assert(f[pp].state == m[pp].state);
            assert(f[pp].parent == m[pp].parent);
            assert(f[pp].childs@ == m[pp].childs@ + p.childs@.reverse());
            assert(f[pp].signals@ == m[pp].signals@ + child_signals(p.signals@) + seq![
                Signal { sender: p.pid, sigtype: SignalType::SigChld, wstatus },
            ]);
            assert(zombified(m, f, pid, wstatus));
            lemma_zombified_wf(m, f, pid, wstatus, tree.next_pid);
        }
    }
}

} // verus!
