//! Background process bookkeeping: the list of started processes and which
//! of them a stop or restart acts on.
use vstd::prelude::*;
use crate::text::{concat, contains, owned, push_str, str_contains, str_eq, u64_to_string, decimal};

verus! {

/// A process started in the background.
#[derive(Debug)]
pub struct ProcessInfo {
    pub id: String,
    pub name: String,
    pub pid: u32,
    pub status: String,
    pub started_at: String,
    pub cwd: String,
    pub command: String,
}

/// The processes started so far, in start order.
#[derive(Debug)]
pub struct ProcessList {
    pub processes: Vec<ProcessInfo>,
}

/// A process is named by `identifier` when its name or its id is it.
pub open spec fn names(p: ProcessInfo, identifier: Seq<char>) -> bool {
    p.name@ == identifier || p.id@ == identifier
}

impl ProcessList {
    pub fn new() -> (r: ProcessList)
        ensures
            r.processes@.len() == 0,
    {
        ProcessList { processes: Vec::new() }
    }

    /// Adds a process after the others.
    pub fn add(&mut self, p: ProcessInfo)
        ensures
            final(self).processes@ == old(self).processes@.push(p),
    {
        self.processes.push(p);
    }

    /// Drops every process with id `id`; says whether one was dropped.
    pub fn remove(&mut self, id: &str) -> (r: bool)
        ensures
            final(self).processes@ == old(self).processes@.filter(|p: ProcessInfo| p.id@ != id@),
            r == (final(self).processes@.len() < old(self).processes@.len()),
    {
        let ghost before = self.processes@;
        let ghost pred = |p: ProcessInfo| p.id@ != id@;
        let mut kept: Vec<ProcessInfo> = Vec::new();
        let mut rest = Vec::new();
        std::mem::swap(&mut rest, &mut self.processes);
        let n = rest.len();
        let mut i: usize = 0;
        proof {
            reveal(Seq::filter);
            assert(before.take(0) =~= Seq::<ProcessInfo>::empty());
            assert(before.skip(0) =~= before);
        }
        while i < n
            invariant
                n == before.len(),
                i <= n,
                rest@ == before.skip(i as int),
                pred == (|p: ProcessInfo| p.id@ != id@),
                kept@ == before.take(i as int).filter(pred),
            decreases n - i,
        {
            let p = rest.remove(0);
            assert(rest@ =~= before.skip(i + 1));
            let ghost t = before.take(i + 1);
            assert(t.drop_last() =~= before.take(i as int));
            assert(t.last() == p);
            proof {
                reveal(Seq::filter);
            }
            if !str_eq(p.id.as_str(), id) {
                kept.push(p);
            }
            i = i + 1;
        }
        assert(before.take(n as int) =~= before);
        proof {
            before.lemma_filter_len(pred);
        }
        self.processes = kept;
        self.processes.len() < n
    }

    /// The first process with id `id`.
    pub fn find(&self, id: &str) -> (r: Option<usize>)
        ensures
            match r {
                Some(i) => i < self.processes@.len() && self.processes@[i as int].id@ == id@
                    && forall|j: int| 0 <= j < i ==> self.processes@[j].id@ != id@,
                None => forall|j: int| 0 <= j < self.processes@.len() ==> self.processes@[j].id@ != id@,
            },
    {
        let mut i: usize = 0;
        while i < self.processes.len()
            invariant
                i <= self.processes@.len(),
                forall|j: int| 0 <= j < i ==> self.processes@[j].id@ != id@,
            decreases self.processes.len() - i,
        {
            if str_eq(self.processes[i].id.as_str(), id) {
                return Some(i);
            }
            i = i + 1;
        }
        None
    }

    /// The first process named `identifier` by name or id.
    pub fn find_named(&self, identifier: &str) -> (r: Option<usize>)
        ensures
            match r {
                Some(i) => i < self.processes@.len() && names(self.processes@[i as int], identifier@)
                    && forall|j: int| 0 <= j < i ==> !names(self.processes@[j], identifier@),
                None => forall|j: int|
                    0 <= j < self.processes@.len() ==> !names(self.processes@[j], identifier@),
            },
    {
        let mut i: usize = 0;
        while i < self.processes.len()
            invariant
                i <= self.processes@.len(),
                forall|j: int| 0 <= j < i ==> !names(self.processes@[j], identifier@),
            decreases self.processes.len() - i,
        {
            if str_eq(self.processes[i].name.as_str(), identifier) || str_eq(
                self.processes[i].id.as_str(),
                identifier,
            ) {
                return Some(i);
            }
            i = i + 1;
        }
        None
    }
}

/// What a stop command does.
#[derive(Debug, PartialEq, Eq)]
pub enum StopPlan {
    /// No process was started; nothing to do.
    NothingToStop,
    /// Stop these processes (by position), in order.
    Stop(Vec<usize>),
}

/// Why a stop found nothing to act on.
#[derive(Debug, PartialEq, Eq)]
pub enum ProcessError {
    /// No process has this name or id.
    NotFound(String),
}

impl ProcessError {
    pub fn message(&self) -> (r: String)
        ensures
            match self {
                ProcessError::NotFound(id) => r@ == "Process '"@ + id@ + "' not found"@,
            },
    {
        match self {
            ProcessError::NotFound(id) => {
                let mut r = concat("Process '", id.as_str());
                push_str(&mut r, "' not found");
                r
            },
        }
    }
}

/// Which processes a stop acts on: with an identifier, the first process
/// it names, an error when none; without, every process.
pub fn stop_process(procs: &ProcessList, identifier: Option<&str>) -> (r: Result<StopPlan, ProcessError>)
    ensures
        procs.processes@.len() == 0 ==> r == Ok::<StopPlan, ProcessError>(StopPlan::NothingToStop),
        procs.processes@.len() > 0 ==> match identifier {
            None => r matches Ok(StopPlan::Stop(v)) && v@ == Seq::new(
                procs.processes@.len(),
                |i: int| i as usize,
            ),
            Some(id) => match r {
                Ok(StopPlan::Stop(v)) => v@.len() == 1 && names(procs.processes@[v@[0] as int], id@)
                    && v@[0] < procs.processes@.len() && forall|j: int|
                    0 <= j < v@[0] ==> !names(procs.processes@[j], id@),
                Err(ProcessError::NotFound(x)) => x@ == id@ && forall|j: int|
                    0 <= j < procs.processes@.len() ==> !names(procs.processes@[j], id@),
                _ => false,
            },
        },
{
    if procs.processes.len() == 0 {
        return Ok(StopPlan::NothingToStop);
    }
    match identifier {
        Some(id) => match procs.find_named(id) {
            Some(i) => {
                let mut v: Vec<usize> = Vec::new();
                v.push(i);
                Ok(StopPlan::Stop(v))
            },
            None => Err(ProcessError::NotFound(owned(id))),
        },
        None => {
            let mut v: Vec<usize> = Vec::new();
            let mut i: usize = 0;
            while i < procs.processes.len()
                invariant
                    i <= procs.processes@.len(),
                    v@ == Seq::new(i as nat, |k: int| k as usize),
                decreases procs.processes.len() - i,
            {
                v.push(i);
                assert(v@ =~= Seq::new((i + 1) as nat, |k: int| k as usize));
                i = i + 1;
            }
            Ok(StopPlan::Stop(v))
        },
    }
}

/// A restart runs again in release mode when its command was a release run.
pub open spec fn is_release_command(command: Seq<char>) -> bool {
    contains(command, "--release"@)
}

/// Whether the restart plan `r` lists process `j`.
pub open spec fn in_plan(r: Seq<(usize, bool)>, j: int) -> bool {
    exists|k: int| 0 <= k < r.len() && r[k].0 == j
}

/// Whether a restart with this identifier (or none) acts on process `j`.
pub open spec fn restart_selects(procs: Seq<ProcessInfo>, identifier: Option<Seq<char>>, j: int) -> bool {
    match identifier {
        Some(id) => names(procs[j], id),
        None => true,
    }
}

pub open spec fn opt_str(o: Option<&str>) -> Option<Seq<char>> {
    match o {
        Some(s) => Some(s@),
        None => None,
    }
}

/// Which processes a restart acts on (all, or those an identifier names),
/// in order, each with whether it restarts in release mode; none when no
/// process was started.
pub fn restart_process(procs: &ProcessList, identifier: Option<&str>) -> (r: Vec<(usize, bool)>)
    ensures
        forall|k: int|
            0 <= k < r@.len() ==> (#[trigger] r@[k]).0 < procs.processes@.len() && r@[k].1
                == is_release_command(procs.processes@[r@[k].0 as int].command@),
        forall|k: int, l: int| 0 <= k < l < r@.len() ==> r@[k].0 < r@[l].0,
        forall|j: int|
            0 <= j < procs.processes@.len() ==> (restart_selects(procs.processes@, opt_str(identifier), j)
                <==> #[trigger] in_plan(r@, j)),
{
    let ghost idv = opt_str(identifier);
    let mut r: Vec<(usize, bool)> = Vec::new();
    let mut i: usize = 0;
    while i < procs.processes.len()
        invariant
            i <= procs.processes@.len(),
            idv == opt_str(identifier),
            forall|k: int|
                0 <= k < r@.len() ==> (#[trigger] r@[k]).0 < i && r@[k].1 == is_release_command(
                    procs.processes@[r@[k].0 as int].command@,
                ),
            forall|k: int, l: int| 0 <= k < l < r@.len() ==> r@[k].0 < r@[l].0,
            forall|j: int|
                0 <= j < i ==> (restart_selects(procs.processes@, idv, j) <==> #[trigger] in_plan(r@, j)),
        decreases procs.processes.len() - i,
    {
        let p = &procs.processes[i];
        let take = match identifier {
            Some(id) => str_eq(p.name.as_str(), id) || str_eq(p.id.as_str(), id),
            None => true,
        };
        assert(take == restart_selects(procs.processes@, idv, i as int));
        let ghost old_r = r@;
        if take {
            let release = str_contains(p.command.as_str(), "--release");
            r.push((i, release));
            assert(r@[old_r.len() as int].0 == i);
            assert(in_plan(r@, i as int));
        } else {
            assert(!in_plan(r@, i as int));
        }
        assert forall|j: int| 0 <= j < i + 1 implies (restart_selects(procs.processes@, idv, j)
            <==> #[trigger] in_plan(r@, j)) by {
            if j < i {
                if in_plan(r@, j) {
                    let k = choose|k: int| 0 <= k < r@.len() && r@[k].0 == j;
                    assert(k < old_r.len());
                    assert(old_r[k].0 == j);
                    assert(in_plan(old_r, j));
                }
                if in_plan(old_r, j) {
                    let k = choose|k: int| 0 <= k < old_r.len() && old_r[k].0 == j;
                    assert(r@[k].0 == j);
                }
            }
        }
        i = i + 1;
    }
    r
}

/// What a start does: the name and id of the new process, whether a
/// process of that name is stopped first, and the command it runs.
#[derive(Debug)]
pub struct StartPlan {
    pub name: String,
    pub id: String,
    pub stop_existing: bool,
    pub command: String,
}

/// Plans a start: the name defaults to `oxidite-app`, the id is the name
/// and the starting tool's own process id, and an existing process of the
/// same name is stopped first.
pub fn plan_start(procs: &ProcessList, name: Option<&str>, own_pid: u32, release: bool) -> (r: StartPlan)
    ensures
        r.name@ == match name {
            Some(n) => n@,
            None => "oxidite-app"@,
        },
        r.id@ == r.name@ + "-"@ + decimal(own_pid as nat),
        r.stop_existing == exists|j: int|
            0 <= j < procs.processes@.len() && (#[trigger] procs.processes@[j]).name@ == r.name@,
        r.command@ == if release {
            "cargo run --release"@
        } else {
            "cargo run"@
        },
{
    let proc_name = match name {
        Some(n) => owned(n),
        None => owned("oxidite-app"),
    };
    let mut id = concat(proc_name.as_str(), "-");
    let digits = u64_to_string(own_pid as u64);
    push_str(&mut id, digits.as_str());
    let mut exists = false;
    let mut i: usize = 0;
    while i < procs.processes.len()
        invariant
            i <= procs.processes@.len(),
            exists == (exists|j: int| 0 <= j < i && (#[trigger] procs.processes@[j]).name@ == proc_name@),
        decreases procs.processes.len() - i,
    {
        if str_eq(procs.processes[i].name.as_str(), proc_name.as_str()) {
            exists = true;
        }
        i = i + 1;
    }
    let command = if release {
        owned("cargo run --release")
    } else {
        owned("cargo run")
    };
    StartPlan { name: proc_name, id, stop_existing: exists, command }
}

/// How a process status is shown.
#[derive(Debug, Clone, Copy, PartialEq, Eq, Structural)]
pub enum StatusStyle {
    Green,
    Red,
    RedBold,
    Yellow,
}

/// `online` is green, `stopped` red, `error` bold red, anything else
/// yellow.
pub fn status_style(status: &str) -> (r: StatusStyle)
    ensures
        r == if status@ == "online"@ {
            StatusStyle::Green
        } else if status@ == "stopped"@ {
            StatusStyle::Red
        } else if status@ == "error"@ {
            StatusStyle::RedBold
        } else {
            StatusStyle::Yellow
        },
{
    if str_eq(status, "online") {
        StatusStyle::Green
    } else if str_eq(status, "stopped") {
        StatusStyle::Red
    } else if str_eq(status, "error") {
        StatusStyle::RedBold
    } else {
        StatusStyle::Yellow
    }
}

/// The closing line of the process list.
pub fn total_line(count: usize) -> (r: String)
    ensures
        r@ == "Total: "@ + decimal(count as nat) + " process"@ + if count == 1 {
            Seq::<char>::empty()
        } else {
            "es"@
        },
{
    let mut r = concat("Total: ", u64_to_string(count as u64).as_str());
    push_str(&mut r, " process");
    if count != 1 {
        push_str(&mut r, "es");
    }
    proof {
        reveal_strlit("");
    }
    r
}

} // verus!
