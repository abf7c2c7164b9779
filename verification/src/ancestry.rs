//! Which pane a process belongs to.

use vstd::prelude::*;

verus! {

/// How many processes are looked at on the way up.
pub const ANCESTRY_STEPS: usize = 32;

/// A shell that the window has started: its process, and the tab it runs in.
#[derive(Copy, Clone, PartialEq, Eq, Structural, Debug)]
pub struct ShellPid {
    pub pid: i32,
    pub tab_id: u64,
}

/// The tab whose shell has the process id `pid`; of several, the last.
pub open spec fn shell_of(shells: Seq<ShellPid>, pid: i32) -> Option<u64>
    decreases shells.len(),
{
    if shells.len() == 0 {
        None
    } else if shells.last().pid == pid {
        Some(shells.last().tab_id)
    } else {
        shell_of(shells.drop_last(), pid)
    }
}

/// `way` goes from `start` from parent to parent, past no shell.
pub open spec fn climbs<P: Fn(i32) -> Option<i32>>(
    shells: Seq<ShellPid>,
    start: i32,
    parent: P,
    way: Seq<i32>,
) -> bool {
    &&& 0 < way.len() <= ANCESTRY_STEPS
    &&& way[0] == start
    &&& forall|i: int|
        0 <= i < way.len() - 1 ==> {
            &&& shell_of(shells, #[trigger] way[i]) is None
            &&& call_ensures(parent, (way[i],), Some(way[i + 1]))
            &&& way[i + 1] > 1
            &&& way[i + 1] != way[i]
        }
}

/// `parent` knows of no one above `pid` that could be a shell.
pub open spec fn tops_out<P: Fn(i32) -> Option<i32>>(parent: P, pid: i32) -> bool {
    exists|up: Option<i32>|
        {
            &&& #[trigger] call_ensures(parent, (pid,), up)
            &&& up matches Some(q) ==> q <= 1 || q == pid
        }
}

/// `r` is where the way up from `start` ends: at the first shell, or nowhere
/// where there is none within reach.
pub open spec fn belongs<P: Fn(i32) -> Option<i32>>(
    shells: Seq<ShellPid>,
    start: i32,
    parent: P,
    r: Option<u64>,
) -> bool {
    exists|way: Seq<i32>|
        {
            &&& #[trigger] climbs(shells, start, parent, way)
            &&& r == shell_of(shells, way.last())
            &&& r is None ==> way.len() == ANCESTRY_STEPS || tops_out(parent, way.last())
        }
}

fn find_shell(shells: &Vec<ShellPid>, pid: i32) -> (r: Option<u64>)
    ensures
        r == shell_of(shells@, pid),
{
    let mut i: usize = shells.len();
    assert(shells@.take(shells@.len() as int) =~= shells@);
    while i > 0
        invariant
            i <= shells@.len(),
            shell_of(shells@, pid) == shell_of(shells@.take(i as int), pid),
        decreases i,
    {
        let ghost s = shells@.take(i as int);
        assert(s.drop_last() =~= shells@.take(i - 1));
        if shells[i - 1].pid == pid {
            return Some(shells[i - 1].tab_id);
        }
        i = i - 1;
    }
    None
}

/// The tab that a connecting process belongs to: the one of the first shell on
/// the way up its ancestry. An agent's helper descends from its pane's shell,
/// whether or not it says so.
pub fn pane_from_pid<P: Fn(i32) -> Option<i32>>(
    shells: &Vec<ShellPid>,
    start: i32,
    parent: &P,
) -> (r: Option<u64>)
    requires
        forall|p: i32| call_requires(*parent, (p,)),
    ensures
        belongs(shells@, start, *parent, r),
{
    let mut pid = start;
    let mut steps: usize = 1;
    let ghost mut way: Seq<i32> = seq![start];
    loop
        invariant
            forall|p: i32| call_requires(*parent, (p,)),
            steps == way.len(),
            climbs(shells@, start, *parent, way),
            pid == way.last(),
        decreases ANCESTRY_STEPS - steps,
    {
        let found = find_shell(shells, pid);
        if found.is_some() {
            return found;
        }
        if steps >= ANCESTRY_STEPS {
            return None;
        }
        let up = parent(pid);
        match up {
            Some(q) => {
                if q > 1 && q != pid {
                    proof {
                        let next = way.push(q);
                        assert forall|i: int| 0 <= i < next.len() - 1 implies {
                            &&& shell_of(shells@, #[trigger] next[i]) is None
                            &&& call_ensures(*parent, (next[i],), Some(next[i + 1]))
                            &&& next[i + 1] > 1
                            &&& next[i + 1] != next[i]
                        } by {
                            if i < way.len() - 1 {
                                assert(next[i] == way[i] && next[i + 1] == way[i + 1]);
                            }
                        }
                        way = next;
                    }
                    pid = q;
                    steps = steps + 1;
                } else {
                    assert(tops_out(*parent, pid));
                    return None;
                }
            },
            None => {
                assert(tops_out(*parent, pid));
                return None;
            },
        }
    }
}

/// A process that is a shell of the window belongs to the tab of that shell.
pub proof fn law_shell_belongs_to_its_tab<P: Fn(i32) -> Option<i32>>(
    shells: Seq<ShellPid>,
    k: int,
    parent: P,
    r: Option<u64>,
)
    requires
        0 <= k < shells.len(),
        forall|j: int| k < j < shells.len() ==> (#[trigger] shells[j]).pid != shells[k].pid,
        belongs(shells, shells[k].pid, parent, r),
    ensures
        r == Some(shells[k].tab_id),
{
    lemma_shell_of(shells, k);
    let way = choose|way: Seq<i32>|
        {
            &&& #[trigger] climbs(shells, shells[k].pid, parent, way)
            &&& r == shell_of(shells, way.last())
            &&& r is None ==> way.len() == ANCESTRY_STEPS || tops_out(parent, way.last())
        };
    if way.len() > 1 {
        assert(shell_of(shells, way[0]) is None);
    }
}

proof fn lemma_shell_of(shells: Seq<ShellPid>, k: int)
    requires
        0 <= k < shells.len(),
        forall|j: int| k < j < shells.len() ==> (#[trigger] shells[j]).pid != shells[k].pid,
    ensures
        shell_of(shells, shells[k].pid) == Some(shells[k].tab_id),
    decreases shells.len(),
{
    if k < shells.len() - 1 {
        assert(shells[shells.len() - 1].pid != shells[k].pid);
        let rest = shells.drop_last();
        assert forall|j: int| k < j < rest.len() implies (#[trigger] rest[j]).pid != shells[k].pid by {
            assert(shells[j].pid != shells[k].pid);
        }
        lemma_shell_of(rest, k);
    }
}

/// A process belongs to a tab only through a shell of it among its ancestors,
/// each the parent of the one before, and at most thirty-one steps up.
pub proof fn law_process_descends_from_its_shell<P: Fn(i32) -> Option<i32>>(
    shells: Seq<ShellPid>,
    start: i32,
    parent: P,
    tab: u64,
) -> (way: Seq<i32>)
    requires
        belongs(shells, start, parent, Some(tab)),
    ensures
        0 < way.len() <= 32,
        way[0] == start,
        forall|i: int|
            0 <= i < way.len() - 1 ==> call_ensures(
                parent,
                (#[trigger] way[i],),
                Some(way[i + 1]),
            ),
        exists|k: int|
            0 <= k < shells.len() && (#[trigger] shells[k]).pid == way.last() && shells[k].tab_id
                == tab,
{
    let way = choose|way: Seq<i32>|
        {
            &&& #[trigger] climbs(shells, start, parent, way)
            &&& Some(tab) == shell_of(shells, way.last())
        };
    assert forall|i: int| 0 <= i < way.len() - 1 implies call_ensures(
        parent,
        (#[trigger] way[i],),
        Some(way[i + 1]),
    ) by {
        assert(shell_of(shells, way[i]) is None);
    }
    lemma_shell_from(shells, way.last());
    way
}

proof fn lemma_shell_from(shells: Seq<ShellPid>, pid: i32)
    requires
        shell_of(shells, pid) is Some,
    ensures
        exists|k: int|
            0 <= k < shells.len() && (#[trigger] shells[k]).pid == pid && Some(shells[k].tab_id)
                == shell_of(shells, pid),
    decreases shells.len(),
{
    if shells.last().pid == pid {
        assert(shells[shells.len() - 1].pid == pid);
    } else {
        let rest = shells.drop_last();
        lemma_shell_from(rest, pid);
        let k = choose|k: int|
            0 <= k < rest.len() && (#[trigger] rest[k]).pid == pid && Some(rest[k].tab_id)
                == shell_of(rest, pid);
        assert(shells[k] == rest[k]);
    }
}

} // verus!
