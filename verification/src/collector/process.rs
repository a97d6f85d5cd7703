//! The process table.
use crate::text::scan::{after_last, law_text_is_cut_at_a_character, past_last, words, words_of};
use crate::text::{same, texts};
use std::collections::{HashMap, HashSet};
use vstd::prelude::*;

verus! {

broadcast use vstd::std_specs::hash::group_hash_axioms;

/// CPU usage of a process, in the bands that the status rules tell apart.
#[derive(Debug, Clone, Copy, PartialEq, Eq, Structural)]
pub enum CpuLoad {
    /// At most five percent.
    Low,
    /// Over five percent and at most ten.
    Moderate,
    /// Over ten percent.
    High,
}

/// One row of the process table.
#[derive(Debug)]
pub struct ProcInfo {
    pub pid: u32,
    pub ppid: u32,
    pub rss_kb: u64,
    pub cpu: CpuLoad,
    pub command: String,
}

/// Whether one of the first two words of a command line is a path to `name`: the
/// program itself, or the script that an interpreter runs.
pub open spec fn names_binary(command: Seq<char>, name: Seq<char>) -> bool {
    let w = words_of(command);
    ||| w.len() > 0 && after_last(w[0], '/') == name
    ||| w.len() > 1 && after_last(w[1], '/') == name
}

/// Whether one of the first two words of a command line is a path to `name`.
pub fn cmd_has_binary(command: &str, name: &str) -> (r: bool)
    ensures
        r == names_binary(command@, name@),
{
    let w = words(command);
    assert(texts(w@) == words_of(command@));
    assert(forall|i: int| 0 <= i < w@.len() ==> texts(w@)[i] == #[trigger] w@[i]@);
    if w.len() > 0 {
        let base = past_last(w[0].as_str(), '/');
        if same(base.as_str(), name) {
            return true;
        }
    }
    if w.len() > 1 {
        let base = past_last(w[1].as_str(), '/');
        if same(base.as_str(), name) {
            return true;
        }
    }
    false
}

/// The parent of `pid`, its parent, and so on: the ancestor that is `n` steps
/// above the parent. The chain ends at the init process and at processes that
/// the table does not list.
pub open spec fn nth_ancestor(info: Map<u32, ProcInfo>, pid: u32, n: nat) -> Option<u32>
    decreases n,
{
    if n == 0 {
        listed(info, info[pid].ppid)
    } else {
        match nth_ancestor(info, pid, (n - 1) as nat) {
            Some(a) => listed(info, info[a].ppid),
            None => None,
        }
    }
}

/// `pid`, where it is a listed process above the init process.
pub open spec fn listed(info: Map<u32, ProcInfo>, pid: u32) -> Option<u32> {
    if pid > 1 && info.contains_key(pid) {
        Some(pid)
    } else {
        None
    }
}

/// Whether the `n`-th ancestor of `pid` runs the program `name`.
pub open spec fn ancestor_names(info: Map<u32, ProcInfo>, pid: u32, n: nat, name: Seq<char>) -> bool {
    match nth_ancestor(info, pid, n) {
        Some(a) => names_binary(info[a].command@, name),
        None => false,
    }
}

/// Whether some ancestor of `pid` runs the program `name`.
pub open spec fn runs_under(info: Map<u32, ProcInfo>, pid: u32, name: Seq<char>) -> bool {
    exists|n: nat| ancestor_names(info, pid, n, name)
}

/// Once the chain of ancestors comes back to one that it has passed, it goes
/// round in a circle.
proof fn lemma_ancestors_repeat(info: Map<u32, ProcInfo>, pid: u32, a: nat, b: nat, k: nat)
    requires
        nth_ancestor(info, pid, a) == nth_ancestor(info, pid, b),
    ensures
        nth_ancestor(info, pid, a + k) == nth_ancestor(info, pid, b + k),
    decreases k,
{
    if k > 0 {
        lemma_ancestors_repeat(info, pid, a, b, (k - 1) as nat);
        assert((a + k - 1) as nat == a + (k - 1) as nat);
        assert((b + k - 1) as nat == b + (k - 1) as nat);
    }
}

/// The chain of ancestors does not go on past its end.
proof fn lemma_ancestors_end(info: Map<u32, ProcInfo>, pid: u32, a: nat, b: nat)
    requires
        nth_ancestor(info, pid, a) is None,
        a <= b,
    ensures
        nth_ancestor(info, pid, b) is None,
    decreases b,
{
    if a < b {
        lemma_ancestors_end(info, pid, a, (b - 1) as nat);
    }
}

/// Where the ancestor at `b` is one of those before it, every ancestor is one of
/// those before `b`.
proof fn lemma_ancestors_circle(info: Map<u32, ProcInfo>, pid: u32, a: nat, b: nat, n: nat)
    requires
        a < b,
        nth_ancestor(info, pid, a) == nth_ancestor(info, pid, b),
    ensures
        exists|m: nat| m < b && nth_ancestor(info, pid, n) == #[trigger] nth_ancestor(info, pid, m),
    decreases n,
{
    if n < b {
        assert(nth_ancestor(info, pid, n) == nth_ancestor(info, pid, n));
    } else {
        let k = (n - b) as nat;
        lemma_ancestors_repeat(info, pid, a, b, k);
        assert(b + k == n);
        lemma_ancestors_circle(info, pid, a, b, (a + k) as nat);
    }
}

/// Whether some ancestor of `pid` runs the program `name`. A circle in the
/// parent links is walked once.
pub fn under_binary(info: &HashMap<u32, ProcInfo>, pid: u32, name: &str) -> (r: bool)
    requires
        info@.contains_key(pid),
    ensures
        r == runs_under(info@, pid, name@),
{
    let mut seen: HashSet<u32> = HashSet::new();
    let mut current: u32 = match info.get(&pid) {
        Some(p) => p.ppid,
        None => 0,
    };
    let ghost mut n: nat = 0;
    while current > 1
        invariant
            listed(info@, current) == nth_ancestor(info@, pid, n),
            seen@.finite(),
            seen@.subset_of(info@.dom()),
            forall|q: u32| #[trigger] seen@.contains(q) ==> exists|m: nat|
                m < n && nth_ancestor(info@, pid, m) == Some(q),
            forall|m: nat| m < n ==> #[trigger] nth_ancestor(info@, pid, m) is Some,
            forall|m: nat| m < n ==> !ancestor_names(info@, pid, m, name@),
        ensures
            nth_ancestor(info@, pid, n) is None,
        decreases info@.dom().len() - seen@.len(),
    {
        match info.get(&current) {
            Some(parent) => {
                assert(nth_ancestor(info@, pid, n) == Some(current));
                if cmd_has_binary(parent.command.as_str(), name) {
                    assert(ancestor_names(info@, pid, n, name@));
                    return true;
                }
                if seen.contains(&current) {
                    proof {
                        let a = choose|m: nat|
                            m < n && nth_ancestor(info@, pid, m) == Some(current);
                        assert forall|k: nat| !ancestor_names(info@, pid, k, name@) by {
                            lemma_ancestors_circle(info@, pid, a, n, k);
                            let m = choose|m: nat|
                                m < n && nth_ancestor(info@, pid, k) == #[trigger] nth_ancestor(info@, pid, m);
                            assert(!ancestor_names(info@, pid, m, name@));
                        }
                    }
                    return false;
                }
                proof {
                    vstd::set_lib::lemma_len_subset(seen@.insert(current), info@.dom());
                }
                seen.insert(current);
                current = parent.ppid;
                proof {
                    n = n + 1;
                }
            },
            None => {
                break ;
            },
        }
    }
    proof {
        assert forall|k: nat| !ancestor_names(info@, pid, k, name@) by {
            if k >= n {
                lemma_ancestors_end(info@, pid, n, k);
            }
        }
    }
    false
}

/// The children that the table lists for `pid`.
pub open spec fn kids(children: Map<u32, Vec<u32>>, pid: u32) -> Seq<u32> {
    if children.contains_key(pid) {
        children[pid]@
    } else {
        Seq::empty()
    }
}

/// Whether `path` leads from `root` down, one generation at a step.
pub open spec fn is_lineage(children: Map<u32, Vec<u32>>, root: u32, path: Seq<u32>) -> bool {
    &&& path.len() > 0
    &&& kids(children, root).contains(path[0])
    &&& forall|i: int| 0 < i < path.len() ==> kids(children, path[i - 1]).contains(#[trigger] path[i])
}

/// Whether `pid` is a child of `root`, a child of a child, and so on.
pub open spec fn descends(children: Map<u32, Vec<u32>>, root: u32, pid: u32) -> bool {
    exists|path: Seq<u32>| #[trigger] is_lineage(children, root, path) && path.last() == pid
}

/// Depth-first order: the process on top of the stack comes first, then those
/// below it from its last child to its first, then the rest of the stack. A
/// process that was seen before is passed over.
pub open spec fn visit_order(children: Map<u32, Vec<u32>>, stack: Seq<u32>, seen: Set<u32>) -> Seq<u32>
    decreases children.dom().difference(seen).len(), stack.len(),
    when children.dom().finite()
{
    if stack.len() == 0 {
        Seq::empty()
    } else {
        let pid = stack.last();
        let rest = stack.drop_last();
        if seen.contains(pid) {
            visit_order(children, rest, seen)
        } else {
            proof {
                lemma_unseen_shrinks(children.dom(), seen, pid);
            }
            seq![pid] + visit_order(children, rest + kids(children, pid), seen.insert(pid))
        }
    }
}

pub proof fn lemma_unseen_shrinks(all: Set<u32>, seen: Set<u32>, pid: u32)
    requires
        all.finite(),
        !seen.contains(pid),
    ensures
        all.contains(pid) ==> all.difference(seen.insert(pid)).len() < all.difference(seen).len(),
        !all.contains(pid) ==> all.difference(seen.insert(pid)) == all.difference(seen),
{
    if all.contains(pid) {
        assert(all.difference(seen.insert(pid)) =~= all.difference(seen).remove(pid));
    } else {
        assert(all.difference(seen.insert(pid)) =~= all.difference(seen));
    }
}

/// A walk lists no process twice and none that was seen before.
proof fn lemma_visit_distinct(children: Map<u32, Vec<u32>>, stack: Seq<u32>, seen: Set<u32>)
    requires
        children.dom().finite(),
    ensures
        visit_order(children, stack, seen).no_duplicates(),
        forall|p: u32| #[trigger] visit_order(children, stack, seen).contains(p) ==> !seen.contains(p),
    decreases children.dom().difference(seen).len(), stack.len(),
{
    if stack.len() > 0 {
        let pid = stack.last();
        let rest = stack.drop_last();
        if seen.contains(pid) {
            lemma_visit_distinct(children, rest, seen);
        } else {
            lemma_unseen_shrinks(children.dom(), seen, pid);
            let inner = visit_order(children, rest + kids(children, pid), seen.insert(pid));
            lemma_visit_distinct(children, rest + kids(children, pid), seen.insert(pid));
            let whole = visit_order(children, stack, seen);
            assert(whole == seq![pid] + inner);
            assert forall|i: int, j: int| 0 <= i < whole.len() && 0 <= j < whole.len() && i != j implies
                whole[i] != whole[j] by {
                if i == 0 {
                    assert(inner.contains(inner[j - 1]));
                } else if j == 0 {
                    assert(inner.contains(inner[i - 1]));
                }
            }
            assert forall|p: u32| #[trigger] whole.contains(p) implies !seen.contains(p) by {
                let i = whole.index_of(p);
                if i > 0 {
                    assert(inner.contains(inner[i - 1]));
                }
            }
        }
    }
}

/// What a walk lists or has seen holds the whole stack, and with each process
/// that it lists its children.
proof fn lemma_visit_closed(children: Map<u32, Vec<u32>>, stack: Seq<u32>, seen: Set<u32>)
    requires
        children.dom().finite(),
    ensures
        forall|p: u32| #[trigger] stack.contains(p) ==> seen.contains(p) || visit_order(
            children,
            stack,
            seen,
        ).contains(p),
        forall|q: u32, p: u32|
            visit_order(children, stack, seen).contains(q) && #[trigger] kids(children, q).contains(p)
                ==> seen.contains(p) || visit_order(children, stack, seen).contains(p),
    decreases children.dom().difference(seen).len(), stack.len(),
{
    if stack.len() > 0 {
        let pid = stack.last();
        let rest = stack.drop_last();
        let whole = visit_order(children, stack, seen);
        assert forall|p: u32| stack.contains(p) implies p == pid || rest.contains(p) by {
            let i = stack.index_of(p);
            if i < rest.len() {
                assert(rest[i] == p);
            }
        }
        if seen.contains(pid) {
            lemma_visit_closed(children, rest, seen);
            assert(whole == visit_order(children, rest, seen));
        } else {
            lemma_unseen_shrinks(children.dom(), seen, pid);
            let next = rest + kids(children, pid);
            let inner = visit_order(children, next, seen.insert(pid));
            lemma_visit_closed(children, next, seen.insert(pid));
            assert(whole == seq![pid] + inner);
            assert(whole[0] == pid);
            assert forall|p: u32| inner.contains(p) implies whole.contains(p) by {
                assert(whole[inner.index_of(p) + 1] == p);
            }
            assert forall|p: u32| whole.contains(p) implies p == pid || inner.contains(p) by {
                let i = whole.index_of(p);
                if i > 0 {
                    assert(inner[i - 1] == p);
                }
            }
            assert forall|p: u32| rest.contains(p) || kids(children, pid).contains(p) implies next.contains(p) by {
                if rest.contains(p) {
                    assert(next[rest.index_of(p)] == p);
                } else {
                    assert(next[rest.len() + kids(children, pid).index_of(p)] == p);
                }
            }
            assert forall|q: u32, p: u32|
                whole.contains(q) && #[trigger] kids(children, q).contains(p) implies seen.contains(p)
                || whole.contains(p) by {
                if q != pid {
                    assert(inner.contains(q));
                } else {
                    assert(next.contains(p));
                }
            }
        }
    }
}

/// A walk that starts from descendants of `root` lists descendants of `root`.
proof fn lemma_visit_sound(children: Map<u32, Vec<u32>>, root: u32, stack: Seq<u32>, seen: Set<u32>)
    requires
        children.dom().finite(),
        forall|p: u32| #[trigger] stack.contains(p) ==> descends(children, root, p),
    ensures
        forall|p: u32| #[trigger] visit_order(children, stack, seen).contains(p) ==> descends(children, root, p),
    decreases children.dom().difference(seen).len(), stack.len(),
{
    if stack.len() > 0 {
        let pid = stack.last();
        let rest = stack.drop_last();
        assert(stack.contains(pid));
        assert forall|p: u32| rest.contains(p) implies stack.contains(p) by {
            assert(stack[rest.index_of(p)] == p);
        }
        if seen.contains(pid) {
            lemma_visit_sound(children, root, rest, seen);
            assert(visit_order(children, stack, seen) == visit_order(children, rest, seen));
        } else {
            lemma_unseen_shrinks(children.dom(), seen, pid);
            let next = rest + kids(children, pid);
            assert forall|p: u32| #[trigger] next.contains(p) implies descends(children, root, p) by {
                let i = next.index_of(p);
                if i < rest.len() {
                    assert(stack[i] == p);
                    assert(stack.contains(p));
                } else {
                    assert(kids(children, pid)[i - rest.len()] == p);
                    let path = choose|path: Seq<u32>|
                        #[trigger] is_lineage(children, root, path) && path.last() == pid;
                    assert(is_lineage(children, root, path.push(p)));
                    assert(path.push(p).last() == p);
                }
            }
            lemma_visit_sound(children, root, next, seen.insert(pid));
            let inner = visit_order(children, next, seen.insert(pid));
            let whole = visit_order(children, stack, seen);
            assert(whole == seq![pid] + inner);
            assert forall|p: u32| #[trigger] whole.contains(p) implies descends(children, root, p) by {
                let i = whole.index_of(p);
                if i > 0 {
                    assert(inner[i - 1] == p);
                    assert(inner.contains(p));
                }
            }
        }
    }
}

/// The processes below `root`, in depth-first order.
pub open spec fn descendants_of(children: Map<u32, Vec<u32>>, root: u32) -> Seq<u32> {
    visit_order(children, kids(children, root), Set::empty())
}

proof fn lemma_lineage_is_visited(children: Map<u32, Vec<u32>>, root: u32, path: Seq<u32>)
    requires
        children.dom().finite(),
        is_lineage(children, root, path),
    ensures
        descendants_of(children, root).contains(path.last()),
    decreases path.len(),
{
    lemma_visit_closed(children, kids(children, root), Set::empty());
    if path.len() > 1 {
        let front = path.drop_last();
        assert(is_lineage(children, root, front)) by {
            assert forall|i: int| 0 < i < front.len() implies kids(children, front[i - 1]).contains(
                #[trigger] front[i],
            ) by {
                assert(front[i] == path[i]);
            }
        }
        lemma_lineage_is_visited(children, root, front);
        assert(kids(children, front.last()).contains(path[path.len() - 1]));
    }
}

/// The depth-first walk below a process lists each of its descendants once, and
/// nothing else.
pub proof fn law_descendants(children: Map<u32, Vec<u32>>, root: u32)
    requires
        children.dom().finite(),
    ensures
        descendants_of(children, root).no_duplicates(),
        forall|p: u32| #[trigger] descendants_of(children, root).contains(p) <==> descends(children, root, p),
{
    lemma_visit_distinct(children, kids(children, root), Set::empty());
    assert forall|p: u32| #[trigger] kids(children, root).contains(p) implies descends(children, root, p) by {
        assert(is_lineage(children, root, seq![p]));
        assert(seq![p].last() == p);
    }
    lemma_visit_sound(children, root, kids(children, root), Set::empty());
    assert forall|p: u32| descends(children, root, p) implies #[trigger] descendants_of(children, root).contains(p) by {
        let path = choose|path: Seq<u32>| #[trigger] is_lineage(children, root, path) && path.last() == p;
        lemma_lineage_is_visited(children, root, path);
    }
}

/// The processes below `root`, in depth-first order, each once.
pub fn descendants(children: &HashMap<u32, Vec<u32>>, root: u32) -> (r: Vec<u32>)
    ensures
        r@ == descendants_of(children@, root),
{
    let mut out: Vec<u32> = Vec::new();
    let mut stack: Vec<u32> = Vec::new();
    push_kids(&mut stack, children, root);
    assert(stack@ =~= kids(children@, root));
    let mut seen: HashSet<u32> = HashSet::new();
    assert(out@ + descendants_of(children@, root) =~= descendants_of(children@, root));
    loop
        invariant
            children@.dom().finite(),
            out@ + visit_order(children@, stack@, seen@) == descendants_of(children@, root),
        decreases children@.dom().difference(seen@).len(), stack@.len(),
    {
        let ghost before = stack@;
        match stack.pop() {
            Some(pid) => {
                assert(stack@ =~= before.drop_last());
                if !seen.contains(&pid) {
                    proof {
                        lemma_unseen_shrinks(children@.dom(), seen@, pid);
                    }
                    let ghost head = out@;
                    let ghost tail = visit_order(
                        children@,
                        before.drop_last() + kids(children@, pid),
                        seen@.insert(pid),
                    );
                    seen.insert(pid);
                    out.push(pid);
                    push_kids(&mut stack, children, pid);
                    assert(head.push(pid) + tail =~= head + (seq![pid] + tail));
                }
            },
            None => {
                assert(out@ + visit_order(children@, before, seen@) =~= out@);
                return out;
            },
        }
    }
}

/// Pushes the children of `pid` on a stack.
fn push_kids(stack: &mut Vec<u32>, children: &HashMap<u32, Vec<u32>>, pid: u32)
    ensures
        final(stack)@ == old(stack)@ + kids(children@, pid),
{
    match children.get(&pid) {
        Some(list) => {
            let mut i: usize = 0;
            let ghost base = stack@;
            assert(base + list@.take(0) =~= base);
            while i < list.len()
                invariant
                    i <= list@.len(),
                    stack@ == base + list@.take(i as int),
                decreases list@.len() - i,
            {
                stack.push(list[i]);
                assert(base + list@.take(i + 1) =~= (base + list@.take(i as int)).push(list@[i as int]));
                i += 1;
            }
            assert(list@.take(i as int) =~= list@);
        },
        None => {
            assert(stack@ + kids(children@, pid) =~= stack@);
        },
    }
}

/// Whether a listed process has a CPU usage of over ten percent.
pub open spec fn busy(info: Map<u32, ProcInfo>, pid: u32) -> bool {
    info.contains_key(pid) && info[pid].cpu == CpuLoad::High
}

/// Whether some process below `root` has a CPU usage of over ten percent.
pub fn has_active_descendant(
    root: u32,
    children: &HashMap<u32, Vec<u32>>,
    info: &HashMap<u32, ProcInfo>,
) -> (r: bool)
    ensures
        r == exists|p: u32| descends(children@, root, p) && #[trigger] busy(info@, p),
{
    let below = descendants(children, root);
    proof {
        law_descendants(children@, root);
    }
    let mut i: usize = 0;
    while i < below.len()
        invariant
            i <= below@.len(),
            below@ == descendants_of(children@, root),
            forall|k: int| 0 <= k < i ==> !busy(info@, #[trigger] below@[k]),
            forall|p: u32| #[trigger] descendants_of(children@, root).contains(p) <==> descends(children@, root, p),
        decreases below@.len() - i,
    {
        if process_busy(info, below[i]) {
            assert(descendants_of(children@, root).contains(below@[i as int]));
            return true;
        }
        i += 1;
    }
    assert forall|p: u32| descends(children@, root, p) implies !busy(info@, p) by {
        assert(descendants_of(children@, root).contains(p));
        let k = below@.index_of(p);
        assert(!busy(info@, below@[k]));
    }
    false
}

/// Whether `pid` is listed with a CPU usage of over ten percent.
pub fn process_busy(info: &HashMap<u32, ProcInfo>, pid: u32) -> (r: bool)
    ensures
        r == busy(info@, pid),
{
    match info.get(&pid) {
        Some(p) => p.cpu == CpuLoad::High,
        None => false,
    }
}

/// The resident memory of a listed process in KiB, and zero for any other.
pub open spec fn memory_of(info: Map<u32, ProcInfo>, pid: u32) -> u64 {
    if info.contains_key(pid) {
        info[pid].rss_kb
    } else {
        0
    }
}

/// The resident memory of a listed process in KiB, and zero for any other.
pub fn rss_kb(info: &HashMap<u32, ProcInfo>, pid: u32) -> (r: u64)
    ensures
        r == memory_of(info@, pid),
{
    match info.get(&pid) {
        Some(p) => p.rss_kb,
        None => 0,
    }
}

/// A list of processes without `root`.
pub open spec fn besides(pids: Seq<u32>, root: u32) -> Seq<u32>
    decreases pids.len(),
{
    if pids.len() == 0 {
        pids
    } else if pids.last() == root {
        besides(pids.drop_last(), root)
    } else {
        besides(pids.drop_last(), root).push(pids.last())
    }
}

/// A process and those below it.
pub open spec fn tree_of(children: Map<u32, Vec<u32>>, root: u32) -> Seq<u32> {
    seq![root] + besides(descendants_of(children, root), root)
}

/// The resident memory of a list of processes in KiB.
pub open spec fn memory_sum(info: Map<u32, ProcInfo>, pids: Seq<u32>) -> nat
    decreases pids.len(),
{
    if pids.len() == 0 {
        0
    } else {
        memory_sum(info, pids.drop_last()) + memory_of(info, pids.last()) as nat
    }
}

/// A number, capped at what 64 bits hold.
pub open spec fn capped(n: nat) -> u64 {
    if n > u64::MAX {
        u64::MAX
    } else {
        n as u64
    }
}

/// The resident memory of a process and those below it in KiB, capped at what 64 bits
/// hold.
pub open spec fn tree_memory(
    info: Map<u32, ProcInfo>,
    children: Map<u32, Vec<u32>>,
    root: u32,
) -> u64 {
    capped(memory_sum(info, tree_of(children, root)))
}

proof fn lemma_besides(pids: Seq<u32>, root: u32)
    requires
        pids.no_duplicates(),
    ensures
        besides(pids, root).no_duplicates(),
        forall|p: u32| #[trigger] besides(pids, root).contains(p) <==> pids.contains(p) && p != root,
    decreases pids.len(),
{
    if pids.len() > 0 {
        let front = pids.drop_last();
        let last = pids.last();
        let inner = besides(front, root);
        lemma_besides(front, root);
        assert forall|p: u32| pids.contains(p) <==> front.contains(p) || p == last by {
            if pids.contains(p) && p != last {
                assert(front[pids.index_of(p)] == p);
            }
            if front.contains(p) {
                assert(pids[front.index_of(p)] == p);
            }
            if p == last {
                assert(pids[pids.len() - 1] == p);
            }
        }
        assert(!front.contains(last)) by {
            if front.contains(last) {
                assert(pids[front.index_of(last)] == pids[pids.len() - 1]);
            }
        }
        if last != root {
            let longer = inner.push(last);
            assert forall|p: u32| longer.contains(p) <==> inner.contains(p) || p == last by {
                if longer.contains(p) && p != last {
                    assert(inner[longer.index_of(p)] == p);
                }
                if inner.contains(p) {
                    assert(longer[inner.index_of(p)] == p);
                }
                if p == last {
                    assert(longer[inner.len() as int] == p);
                }
            }
            assert(!inner.contains(last));
        }
    }
}

/// The memory of a tree counts the process and each of its descendants once, and
/// nothing else.
pub proof fn law_tree_counts_each_process_once(children: Map<u32, Vec<u32>>, root: u32)
    requires
        children.dom().finite(),
    ensures
        tree_of(children, root).no_duplicates(),
        forall|p: u32| #[trigger]
            tree_of(children, root).contains(p) <==> p == root || descends(children, root, p),
{
    law_descendants(children, root);
    let below = besides(descendants_of(children, root), root);
    lemma_besides(descendants_of(children, root), root);
    let tree = tree_of(children, root);
    assert forall|p: u32| #[trigger] tree.contains(p) <==> p == root || below.contains(p) by {
        if tree.contains(p) && p != root {
            let k = tree.index_of(p);
            assert(below[k - 1] == p);
        }
        if p == root {
            assert(tree[0] == p);
        }
        if below.contains(p) {
            assert(tree[below.index_of(p) + 1] == p);
        }
    }
    assert forall|i: int, j: int| 0 <= i < tree.len() && 0 <= j < tree.len() && i != j implies tree[i]
        != tree[j] by {
        if i > 0 {
            assert(below.contains(below[i - 1]));
        }
        if j > 0 {
            assert(below.contains(below[j - 1]));
        }
    }
}

/// The resident memory of a process and those below it in KiB.
pub fn tree_rss_kb(
    info: &HashMap<u32, ProcInfo>,
    children: &HashMap<u32, Vec<u32>>,
    root: u32,
) -> (r: u64)
    ensures
        r == tree_memory(info@, children@, root),
{
    let below = descendants(children, root);
    let mut sum: u64 = rss_kb(info, root);
    let ghost so_far = seq![root];
    let mut i: usize = 0;
    assert(so_far.drop_last() =~= Seq::empty());
    assert(memory_sum(info@, Seq::empty()) == 0);
    assert(so_far + besides(below@.take(0), root) =~= so_far);
    while i < below.len()
        invariant
            i <= below@.len(),
            sum == capped(memory_sum(info@, seq![root] + besides(below@.take(i as int), root))),
        decreases below@.len() - i,
    {
        let ghost before = seq![root] + besides(below@.take(i as int), root);
        assert(below@.take(i + 1).drop_last() =~= below@.take(i as int));
        if below[i] != root {
            sum = sum.saturating_add(rss_kb(info, below[i]));
            proof {
                let now = seq![root] + besides(below@.take(i + 1), root);
                assert(now =~= before.push(below@[i as int]));
                assert(now.drop_last() =~= before);
            }
        }
        i += 1;
    }
    assert(below@.take(i as int) =~= below@);
    sum
}

/// The processes that `wanted` picks, each once, in the order in which the table
/// is walked. `rule` says what `wanted` decides.
pub(crate) fn pids_where<F: Fn(&ProcInfo) -> bool>(
    info: &HashMap<u32, ProcInfo>,
    wanted: F,
    Ghost(rule): Ghost<spec_fn(ProcInfo) -> bool>,
) -> (r: Vec<u32>)
    requires
        forall|p: &ProcInfo| call_requires(wanted, (p,)),
        forall|p: &ProcInfo, b: bool| call_ensures(wanted, (p,), b) ==> b == rule(*p),
    ensures
        r@.no_duplicates(),
        forall|pid: u32| #[trigger]
            r@.contains(pid) <==> info@.contains_key(pid) && rule(info@[pid]),
{
    let mut out: Vec<u32> = Vec::new();
    let ghost mut at: Seq<int> = Seq::empty();
    for (pid, process) in it: info.iter()
        invariant
            forall|p: &ProcInfo| call_requires(wanted, (p,)),
            forall|p: &ProcInfo, b: bool| call_ensures(wanted, (p,), b) ==> b == rule(*p),
            it.seq().no_duplicates(),
            forall|i: int|
                0 <= i < it.seq().len() ==> info@.contains_key(*(#[trigger] it.seq()[i]).0)
                    && info@[*it.seq()[i].0] == *it.seq()[i].1,
            out@.no_duplicates(),
            at.len() == out@.len(),
            forall|k: int|
                0 <= k < out@.len() ==> 0 <= #[trigger] at[k] < it.index() && *it.seq()[at[k]].0 == out@[k]
                    && rule(*it.seq()[at[k]].1),
            forall|i: int|
                0 <= i < it.index() && rule(*(#[trigger] it.seq()[i]).1) ==> out@.contains(*it.seq()[i].0),
    {
        if wanted(process) {
            proof {
                let here = it.index();
                assert(it.seq()[here] == (pid, process));
                if out@.contains(*pid) {
                    let k = out@.index_of(*pid);
                    assert(it.seq()[at[k]] == it.seq()[here]);
                }
                let before = out@;
                assert(before.push(*pid).last() == *pid);
                assert forall|x: u32| before.contains(x) implies before.push(*pid).contains(x) by {
                    assert(before.push(*pid)[before.index_of(x)] == x);
                }
                at = at.push(here);
            }
            out.push(*pid);
        }
    }
    proof {
        assert forall|pid: u32| #[trigger] out@.contains(pid) implies info@.contains_key(pid) && rule(
            info@[pid],
        ) by {
            let k = out@.index_of(pid);
            assert(0 <= at[k]);
        }
    }
    out
}

/// The memory of two lists of the same processes is the same.
pub proof fn lemma_memory_of_same(info: Map<u32, ProcInfo>, a: Seq<u32>, b: Seq<u32>)
    requires
        a.no_duplicates(),
        b.no_duplicates(),
        forall|p: u32| #[trigger] a.contains(p) <==> b.contains(p),
    ensures
        memory_sum(info, a) == memory_sum(info, b),
    decreases a.len(),
{
    if a.len() == 0 {
        if b.len() > 0 {
            assert(b.contains(b[0]));
            assert(a.contains(b[0]));
        }
    } else {
        let last = a.last();
        let front = a.drop_last();
        assert(a.contains(last));
        let k = b.index_of(last);
        let rest = b.remove(k);
        assert forall|p: u32| front.contains(p) <==> rest.contains(p) by {
            if front.contains(p) {
                let i = front.index_of(p);
                assert(a[i] == p);
                assert(a.contains(p));
                let j = b.index_of(p);
                assert(a[i] != a[a.len() - 1]);
                if j < k {
                    assert(rest[j] == p);
                } else {
                    assert(rest[j - 1] == p);
                }
            }
            if rest.contains(p) {
                let j = rest.index_of(p);
                if j < k {
                    assert(b[j] == p);
                } else {
                    assert(b[j + 1] == p);
                }
                assert(b.contains(p));
                assert(a.contains(p));
                let i = a.index_of(p);
                assert(p != last);
                assert(front[i] == p);
            }
        }
        assert(rest.no_duplicates());
        lemma_memory_of_same(info, front, rest);
        lemma_memory_removed(info, b, k);
    }
}

proof fn lemma_memory_removed(info: Map<u32, ProcInfo>, pids: Seq<u32>, k: int)
    requires
        0 <= k < pids.len(),
    ensures
        memory_sum(info, pids) == memory_sum(info, pids.remove(k)) + memory_of(info, pids[k]),
    decreases pids.len(),
{
    let front = pids.drop_last();
    if k < pids.len() - 1 {
        lemma_memory_removed(info, front, k);
        assert(pids.remove(k).drop_last() =~= front.remove(k));
    } else {
        assert(pids.remove(k) =~= front);
    }
}

/// The memory of processes is the sum of what each of them has; a process that is not
/// listed has none.
pub proof fn law_memory_adds_up(info: Map<u32, ProcInfo>, pids: Seq<u32>, pid: u32)
    ensures
        memory_sum(info, Seq::empty()) == 0,
        info.contains_key(pid) ==> memory_sum(info, pids.push(pid)) == memory_sum(info, pids)
            + info[pid].rss_kb,
        !info.contains_key(pid) ==> memory_sum(info, pids.push(pid)) == memory_sum(info, pids),
{
    assert(pids.push(pid).drop_last() =~= pids);
}

/// A child descends from its parent, what is below a descendant descends too, and whatever
/// descends is a child or below one.
pub proof fn law_descent_goes_from_child_to_child(children: Map<u32, Vec<u32>>, root: u32, p: u32, q: u32)
    ensures
        children.contains_key(root) && children[root]@.contains(p) ==> descends(children, root, p),
        descends(children, root, p) && children.contains_key(p) && children[p]@.contains(q)
            ==> descends(children, root, q),
        descends(children, root, q) ==> exists|parent: u32|
            {
                &&& parent == root || descends(children, root, parent)
                &&& #[trigger] children.contains_key(parent)
                &&& children[parent]@.contains(q)
            },
{
    if children.contains_key(root) && children[root]@.contains(p) {
        assert(is_lineage(children, root, seq![p]));
        assert(seq![p].last() == p);
    }
    if descends(children, root, p) && children.contains_key(p) && children[p]@.contains(q) {
        let path = choose|path: Seq<u32>| #[trigger] is_lineage(children, root, path) && path.last() == p;
        let longer = path.push(q);
        assert forall|i: int| 0 < i < longer.len() implies kids(children, longer[i - 1]).contains(
            #[trigger] longer[i],
        ) by {
            if i < path.len() {
                assert(longer[i] == path[i]);
                assert(longer[i - 1] == path[i - 1]);
            }
        }
        assert(is_lineage(children, root, longer));
        assert(longer.last() == q);
    }
    if descends(children, root, q) {
        let path = choose|path: Seq<u32>| #[trigger] is_lineage(children, root, path) && path.last() == q;
        if path.len() == 1 {
            assert(kids(children, root).contains(q));
            assert(children.contains_key(root));
        } else {
            let front = path.drop_last();
            assert forall|i: int| 0 < i < front.len() implies kids(children, front[i - 1]).contains(
                #[trigger] front[i],
            ) by {
                assert(front[i] == path[i]);
            }
            assert(is_lineage(children, root, front));
            let parent = front.last();
            assert(kids(children, path[path.len() - 2]).contains(path[path.len() - 1]));
            assert(descends(children, root, parent));
            assert(children.contains_key(parent));
        }
    }
}

/// A command line runs a program where its first or its second word is the program's name,
/// alone or behind a directory; no further word counts.
pub proof fn law_program_is_one_of_two_words(command: Seq<char>, dir: Seq<char>, name: Seq<char>)
    requires
        !name.contains('/'),
    ensures
        words_of(command).len() > 0 && (words_of(command)[0] == name || words_of(command)[0]
            == dir.push('/') + name) ==> names_binary(command, name),
        words_of(command).len() > 1 && (words_of(command)[1] == name || words_of(command)[1]
            == dir.push('/') + name) ==> names_binary(command, name),
        names_binary(command, name) ==> words_of(command).len() > 0,
        words_of(command).len() > 0 && after_last(words_of(command)[0], '/') != name && (words_of(
            command,
        ).len() == 1 || after_last(words_of(command)[1], '/') != name) ==> !names_binary(
            command,
            name,
        ),
{
    law_text_is_cut_at_a_character(dir, '/', name);
}

/// A process runs under a program where its parent runs it, or where the parent runs under
/// it; the chain ends at the processes zero and one and where no process is listed.
pub proof fn law_ancestors_are_followed(info: Map<u32, ProcInfo>, pid: u32, name: Seq<char>)
    requires
        info.contains_key(pid),
    ensures
        ({
            let parent = info[pid].ppid;
            &&& parent > 1 && info.contains_key(parent) ==> (runs_under(info, pid, name)
                <==> names_binary(info[parent].command@, name) || runs_under(info, parent, name))
            &&& parent <= 1 || !info.contains_key(parent) ==> !runs_under(info, pid, name)
        }),
{
    let parent = info[pid].ppid;
    if parent > 1 && info.contains_key(parent) {
        assert forall|n: nat| nth_ancestor(info, pid, n + 1) == #[trigger] nth_ancestor(
            info,
            parent,
            n,
        ) by {
            lemma_ancestor_of_parent(info, pid, n);
        }
        if runs_under(info, pid, name) {
            let n = choose|n: nat| ancestor_names(info, pid, n, name);
            if n > 0 {
                let m = (n - 1) as nat;
                assert(nth_ancestor(info, pid, m + 1) == nth_ancestor(info, parent, m));
                assert(ancestor_names(info, parent, m, name));
            }
        }
        if names_binary(info[parent].command@, name) {
            assert(ancestor_names(info, pid, 0, name));
        }
        if runs_under(info, parent, name) {
            let n = choose|n: nat| ancestor_names(info, parent, n, name);
            assert(nth_ancestor(info, pid, n + 1) == nth_ancestor(info, parent, n));
            assert(ancestor_names(info, pid, n + 1, name));
        }
    } else {
        assert(nth_ancestor(info, pid, 0) is None);
        assert forall|n: nat| !ancestor_names(info, pid, n, name) by {
            lemma_ancestors_end(info, pid, 0, n);
        }
    }
}

proof fn lemma_ancestor_of_parent(info: Map<u32, ProcInfo>, pid: u32, n: nat)
    requires
        info[pid].ppid > 1,
        info.contains_key(info[pid].ppid),
    ensures
        nth_ancestor(info, pid, n + 1) == nth_ancestor(info, info[pid].ppid, n),
    decreases n,
{
    if n > 0 {
        lemma_ancestor_of_parent(info, pid, (n - 1) as nat);
    } else {
        assert(nth_ancestor(info, pid, 0) == Some(info[pid].ppid));
    }
}

/// A process is busy where it is listed with a CPU usage of over ten percent, and has the
/// memory that it is listed with.
pub proof fn law_process_table_is_read(info: Map<u32, ProcInfo>, pid: u32)
    ensures
        busy(info, pid) <==> info.contains_key(pid) && info[pid].cpu == CpuLoad::High,
        info.contains_key(pid) ==> memory_of(info, pid) == info[pid].rss_kb,
        !info.contains_key(pid) ==> memory_of(info, pid) == 0,
{
}

/// A sum that fits is kept, and one that does not is the largest number.
pub proof fn law_large_sums_are_capped(n: nat)
    ensures
        n <= u64::MAX ==> capped(n) == n,
        n > u64::MAX ==> capped(n) == u64::MAX,
{
}

/// The processes below one are walked depth first, the last child before the others, and a
/// process that was visited is passed over.
pub proof fn law_walk_is_depth_first(
    children: Map<u32, Vec<u32>>,
    stack: Seq<u32>,
    seen: Set<u32>,
    p: u32,
)
    requires
        children.dom().finite(),
    ensures
        visit_order(children, Seq::empty(), seen).len() == 0,
        seen.contains(p) ==> visit_order(children, stack.push(p), seen) == visit_order(
            children,
            stack,
            seen,
        ),
        !seen.contains(p) && children.contains_key(p) ==> visit_order(
            children,
            stack.push(p),
            seen,
        ) == seq![p] + visit_order(children, stack + children[p]@, seen.insert(p)),
        !seen.contains(p) && !children.contains_key(p) ==> visit_order(
            children,
            stack.push(p),
            seen,
        ) == seq![p] + visit_order(children, stack, seen.insert(p)),
        children.contains_key(p) ==> descendants_of(children, p) == visit_order(
            children,
            children[p]@,
            Set::empty(),
        ),
        !children.contains_key(p) ==> descendants_of(children, p).len() == 0,
{
    assert(stack.push(p).drop_last() =~= stack);
    assert(stack + Seq::<u32>::empty() =~= stack);
}

} // verus!
