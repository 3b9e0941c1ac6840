//! What the operations on the process tree keep, and what a wait gives
//! back of an exit.

use vstd::prelude::*;

use crate::errno::ErrNo;
use crate::proc::process::{
    child_signals, first_at, parent_of, removable, removed, signal_taken, wanted, zombifiable, zombified, Pid,
    Process,
};
use crate::proc::signal::{Signal, SignalType};
use crate::syscalls::process::spawned;

verus! {

/// Every process with a parent names a parent other than itself, which is
/// in the tree and lists it among its children.
pub open spec fn consistent(m: Map<Pid, Process>) -> bool {
    forall|k: Pid|
        #![trigger m[k]]
        m.contains_key(k) && m[k].parent is Some ==> {
            &&& parent_of(m, k) != k
            &&& m.contains_key(parent_of(m, k))
            &&& m[parent_of(m, k)].childs@.contains(k)
        }
}

/// No process of `m` names `pid` as its parent.
pub open spec fn no_child_of(m: Map<Pid, Process>, pid: Pid) -> bool {
    forall|k: Pid| #![trigger m[k]] m.contains_key(k) ==> m[k].parent != Some(pid)
}

proof fn lemma_child_signals_senders(s: Seq<Signal>, pid: Pid)
    requires
        forall|i: int| 0 <= i < s.len() ==> #[trigger] s[i].sender != pid,
    ensures
        forall|j: int| 0 <= j < child_signals(s).len() ==> #[trigger] child_signals(s)[j].sender != pid,
    decreases s.len(),
{
    if s.len() > 0 {
        assert forall|i: int| 0 <= i < s.drop_last().len() implies #[trigger] s.drop_last()[i].sender != pid by {
            assert(s.drop_last()[i] == s[i]);
        }
        lemma_child_signals_senders(s.drop_last(), pid);
        assert(s.last() == s[s.len() - 1]);
    }
}

/// Making a process a zombie keeps the tree consistent, and leaves no
/// process naming the zombie as its parent.
pub proof fn lemma_zombify_keeps_tree(m: Map<Pid, Process>, f: Map<Pid, Process>, pid: Pid, wstatus: i32)
    requires
        consistent(m),
        zombifiable(m, pid),
        zombified(m, f, pid, wstatus),
    ensures
        consistent(f),
        no_child_of(f, pid),
{
    let p = m[pid];
    let pp = parent_of(m, pid);
    let n = p.childs@.len();
    let base = m[pp].childs@.len();
    assert forall|c: Pid| p.childs@.contains(c) implies f[pp].childs@.contains(c) by {
        let i = choose|i: int| 0 <= i < n && p.childs@[i] == c;
        assert(p.childs@.reverse()[n - 1 - i] == c);
        assert(f[pp].childs@[base + n - 1 - i] == c);
    }
    assert forall|c: Pid| m[pp].childs@.contains(c) implies f[pp].childs@.contains(c) by {
        let i = choose|i: int| 0 <= i < base && m[pp].childs@[i] == c;
        assert(f[pp].childs@[i] == c);
    }
    assert forall|k: Pid| #![trigger f[k]] f.contains_key(k) && f[k].parent is Some implies {
        &&& parent_of(f, k) != k
        &&& f.contains_key(parent_of(f, k))
        &&& f[parent_of(f, k)].childs@.contains(k)
    } by {
        assert(m.contains_key(k));
        if k == pid {
            assert(m[pp].childs@.contains(pid));
        } else if k == pp {
            let y = parent_of(m, pp);
            if y == pid {
                let i = choose|i: int| 0 <= i < n && p.childs@[i] == pp;
                assert(p.childs@[i] != pp);
            }
            if y != pp && y != pid && p.childs@.contains(y) {
                assert(f[y].childs@ == m[y].childs@);
            }
        } else if p.childs@.contains(k) {
        } else {
            let y = parent_of(m, k);
            if y == pid {
                assert(p.childs@.contains(k));
            }
            if y != pp && y != pid && p.childs@.contains(y) {
                assert(f[y].childs@ == m[y].childs@);
            }
        }
    }
    assert forall|k: Pid| #![trigger f[k]] f.contains_key(k) implies f[k].parent != Some(pid) by {
        if k != pid && k != pp && !p.childs@.contains(k) && m[k].parent == Some(pid) {
            assert(p.childs@.contains(k));
        }
        if k == pp && m[pp].parent == Some(pid) {
            let i = choose|i: int| 0 <= i < n && p.childs@[i] == pp;
            assert(p.childs@[i] != pp);
        }
    }
}

proof fn lemma_remove_at_keeps(s: Seq<Pid>, i: int, k: Pid)
    requires
        0 <= i < s.len(),
        s[i] != k,
        s.contains(k),
    ensures
        s.remove(i).contains(k),
{
    let j = choose|j: int| 0 <= j < s.len() && s[j] == k;
    if j < i {
        assert(s.remove(i)[j] == k);
    } else {
        assert(s.remove(i)[j - 1] == k);
    }
}

/// Taking a process out of the tree keeps the tree consistent when no
/// process names it as its parent, and leaves one process less.
pub proof fn lemma_remove_keeps_tree(m: Map<Pid, Process>, f: Map<Pid, Process>, pid: Pid)
    requires
        m.dom().finite(),
        consistent(m),
        removable(m, pid),
        no_child_of(m, pid),
        removed(m, f, pid),
    ensures
        consistent(f),
        f.dom().len() == m.dom().len() - 1,
{
    let pp = parent_of(m, pid);
    let i = choose|i: int|
        first_at(m[pp].childs@, pid, i) && f[pp].childs@ == m[pp].childs@.remove(i);
    assert(m[pp].childs@[i] == pid);
    assert forall|k: Pid| #![trigger f[k]] f.contains_key(k) && f[k].parent is Some implies {
        &&& parent_of(f, k) != k
        &&& f.contains_key(parent_of(f, k))
        &&& f[parent_of(f, k)].childs@.contains(k)
    } by {
        assert(m.contains_key(k));
        assert(k != pid);
        let y = parent_of(m, k);
        if k == pp {
            assert(f[pp].parent == m[pp].parent);
        } else {
            assert(f[k] == m[k]);
        }
        assert(m[k].parent != Some(pid));
        assert(y != pid);
        if y == pp {
            lemma_remove_at_keeps(m[pp].childs@, i, k);
        } else {
            assert(f[y] == m[y]);
        }
    }
}

/// Making a child with a pid that no process has keeps the tree
/// consistent, and adds one process.
pub proof fn lemma_fork_keeps_tree(m: Map<Pid, Process>, f: Map<Pid, Process>, running: Pid, res: Pid, exe: Seq<char>)
    requires
        m.dom().finite(),
        consistent(m),
        m.contains_key(running),
        m[running].pid == running,
        !m.contains_key(res),
        spawned(m, f, running, res, exe),
    ensures
        consistent(f),
        f.dom().len() == m.dom().len() + 1,
{
    assert forall|k: Pid| #![trigger f[k]] f.contains_key(k) && f[k].parent is Some implies {
        &&& parent_of(f, k) != k
        &&& f.contains_key(parent_of(f, k))
        &&& f[parent_of(f, k)].childs@.contains(k)
    } by {
        if k == res {
            assert(f[running].childs@.last() == res);
        } else {
            let y = parent_of(m, k);
            if y == running {
                let j = choose|j: int| 0 <= j < m[running].childs@.len() && m[running].childs@[j] == k;
                assert(f[running].childs@[j] == k);
            }
        }
    }
}

/// A process made under a pid that no process has adds one process to the
/// tree, listed last among the children of the process that made it,
/// whose pid it names as its parent.
pub proof fn lemma_spawn_adds_last_child(m: Map<Pid, Process>, f: Map<Pid, Process>, running: Pid, res: Pid, exe: Seq<char>)
    requires
        m.dom().finite(),
        m.contains_key(running),
        !m.contains_key(res),
        spawned(m, f, running, res, exe),
    ensures
        f.dom().len() == m.dom().len() + 1,
        f[running].childs@.len() == m[running].childs@.len() + 1,
        f[running].childs@.last() == res,
        f[res].parent == Some(m[running].pid),
        f[res].exe@ == exe,
{
}

/// Taking a signal keeps the tree consistent: no parent or child changes.
pub proof fn lemma_take_keeps_tree(
    m: Map<Pid, Process>,
    f: Map<Pid, Process>,
    running: Pid,
    pid: Pid,
    signal: SignalType,
    res: Result<Signal, ErrNo>,
)
    requires
        consistent(m),
        m.contains_key(running),
        signal_taken(m, f, running, pid, signal, res),
    ensures
        consistent(f),
{
    assert forall|k: Pid| #![trigger f[k]] f.contains_key(k) && f[k].parent is Some implies {
        &&& parent_of(f, k) != k
        &&& f.contains_key(parent_of(f, k))
        &&& f[parent_of(f, k)].childs@.contains(k)
    } by {
        assert(m.contains_key(k));
        assert(f[k].parent == m[k].parent);
        let y = parent_of(m, k);
        assert(f[y].childs@ == m[y].childs@);
    }
}

/// The status a zombie was given reaches its parent's wait on it: the
/// parent's wait takes the zombie's `SigChld` with that status, when the
/// parent held no earlier `SigChld` from it and the zombie held none
/// from itself.
pub proof fn lemma_zombie_status_reaches_wait(
    m: Map<Pid, Process>,
    f: Map<Pid, Process>,
    g: Map<Pid, Process>,
    pid: Pid,
    wstatus: i32,
    res: Result<Signal, ErrNo>,
)
    requires
        pid > 0,
        zombifiable(m, pid),
        m[pid].pid == pid,
        forall|i: int|
            0 <= i < m[parent_of(m, pid)].signals@.len() ==> !wanted(
                #[trigger] m[parent_of(m, pid)].signals@[i],
                Some(pid),
                SignalType::SigChld,
            ),
        forall|i: int| 0 <= i < m[pid].signals@.len() ==> #[trigger] m[pid].signals@[i].sender != pid,
        zombified(m, f, pid, wstatus),
        signal_taken(f, g, parent_of(m, pid), pid, SignalType::SigChld, res),
    ensures
        res == Ok::<Signal, ErrNo>(Signal { sender: pid, sigtype: SignalType::SigChld, wstatus }),
{
    let pp = parent_of(m, pid);
    let a = m[pp].signals@;
    let c = child_signals(m[pid].signals@);
    let s = Signal { sender: pid, sigtype: SignalType::SigChld, wstatus };
    let all = f[pp].signals@;
    lemma_child_signals_senders(m[pid].signals@, pid);
    assert(all == a + c + seq![s]);
    let last = all.len() - 1;
    assert(all[last] == s);
    assert forall|j: int| 0 <= j < last implies !wanted(#[trigger] all[j], Some(pid), SignalType::SigChld) by {
        if j < a.len() {
            assert(all[j] == a[j]);
        } else {
            assert(all[j] == c[j - a.len()]);
        }
    }
    match res {
        Ok(x) => {
            let i = choose|i: int| {
                &&& 0 <= i < all.len()
                &&& #[trigger] all[i] == x
                &&& wanted(x, Some(pid), SignalType::SigChld)
                &&& forall|j: int| 0 <= j < i ==> !wanted(#[trigger] all[j], Some(pid), SignalType::SigChld)
                &&& g[pp].signals@ == all.remove(i)
            };
            if i < last {
                assert(!wanted(all[i], Some(pid), SignalType::SigChld));
            }
        },
        Err(_) => {
            assert(!wanted(all[last], Some(pid), SignalType::SigChld));
        },
    }
}

} // verus!
