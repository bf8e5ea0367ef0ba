//! The launcher's table of the service processes it has spawned, keyed by
//! process id.

use std::collections::hash_map::Entry;
use std::collections::HashMap;
use vstd::prelude::*;

verus! {

broadcast use vstd::std_specs::hash::group_hash_axioms;

/// A service process spawned by the launcher: its process id and the name
/// of the service group it runs (such as `redis.default`).
#[derive(Clone, Debug, PartialEq, Eq)]
pub struct Service {
    pid: u32,
    name: String,
}

impl View for Service {
    /// Process id and service-group name.
    type V = (u32, Seq<char>);

    closed spec fn view(&self) -> (u32, Seq<char>) {
        (self.pid, self.name@)
    }
}

impl Service {
    pub fn new(pid: u32, name: &str) -> (r: Service)
        ensures
            r@ == (pid, name@),
    {
        Service { pid, name: String::from_str(name) }
    }

    /// The process id.
    pub fn id(&self) -> (r: u32)
        ensures
            r == self@.0,
    {
        self.pid
    }

    /// The name of the service group this process runs.
    pub fn name(&self) -> (r: &str)
        ensures
            r@ == self@.1,
    {
        self.name.as_str()
    }
}

/// The services the launcher runs, by process id.
#[derive(Debug)]
pub struct ServiceTable(HashMap<u32, Service>);

/// Every service is recorded under its own process id.
pub open spec fn keys_are_ids(m: Map<u32, Service>) -> bool {
    forall|pid: u32| #[trigger] m.contains_key(pid) ==> m[pid]@.0 == pid
}

impl View for ServiceTable {
    type V = Map<u32, Service>;

    closed spec fn view(&self) -> Map<u32, Service> {
        self.0@
    }
}

impl Default for ServiceTable {
    fn default() -> (r: ServiceTable)
        ensures
            r@ == Map::<u32, Service>::empty(),
            r@ == run_steps(Seq::empty()),
            keys_are_ids(r@),
    {
        ServiceTable(HashMap::new())
    }
}

impl ServiceTable {
    /// The service running as process `pid`.
    pub fn get(&self, pid: u32) -> (r: Option<&Service>)
        ensures
            match r {
                Some(s) => self@.contains_key(pid) && *s == self@[pid],
                None => !self@.contains_key(pid),
            },
            keys_are_ids(self@) ==> (r matches Some(s) ==> s@.0 == pid),
    {
        self.0.get(&pid)
    }

    /// The service running as process `pid`, to change in place.
    pub fn get_mut(&mut self, pid: u32) -> (r: Option<&mut Service>)
        ensures
            match r {
                Some(s) => old(self)@.contains_key(pid) && *s == old(self)@[pid] && final(self)@
                    == old(self)@.insert(pid, *final(s)),
                None => !old(self)@.contains_key(pid) && final(self)@ == old(self)@,
            },
            r matches Some(s) ==> final(self)@ == table_step(
                old(self)@,
                TableStep::Replace(pid, *final(s)),
            ),
            keys_are_ids(old(self)@) ==> (r matches Some(s) ==> s@.0 == pid),
            keys_are_ids(old(self)@) && (r matches Some(s) ==> final(s)@.0 == pid)
                ==> keys_are_ids(final(self)@),
    {
        match self.0.entry(pid) {
            Entry::Occupied(e) => Some(e.into_mut()),
            Entry::Vacant(_) => None,
        }
    }

    /// Records `service` under its process id, replacing any service
    /// recorded there before.
    pub fn insert(&mut self, service: Service)
        ensures
            final(self)@ == old(self)@.insert(service@.0, service),
            final(self)@ == table_step(old(self)@, TableStep::Insert(service)),
            keys_are_ids(old(self)@) ==> keys_are_ids(final(self)@),
    {
        let pid = service.id();
        self.0.insert(pid, service);
    }

    /// Forgets the service running as process `pid`, returning it.
    pub fn remove(&mut self, pid: u32) -> (r: Option<Service>)
        ensures
            final(self)@ == old(self)@.remove(pid),
            final(self)@ == table_step(old(self)@, TableStep::Remove(pid)),
            keys_are_ids(old(self)@) ==> keys_are_ids(final(self)@),
            match r {
                Some(s) => old(self)@.contains_key(pid) && s == old(self)@[pid],
                None => !old(self)@.contains_key(pid),
            },
    {
        self.0.remove(&pid)
    }

    /// Given the name of a service group (e.g. "redis.default"), the
    /// process id of a service running it, if any does. Which one is
    /// returned when several do is left open.
    pub fn pid_of(&self, service_name: &str) -> (r: Option<u32>)
        ensures
            match r {
                Some(pid) => self@.contains_key(pid) && self@[pid]@.1 == service_name@,
                None => forall|pid: u32| #[trigger]
                    self@.contains_key(pid) ==> self@[pid]@.1 != service_name@,
            },
    {
        let wanted = String::from_str(service_name);
        for entry in it: self.0.iter()
            invariant
                wanted@ == service_name@,
                forall|k: int|
                    0 <= k < it.index() ==> (#[trigger] it.seq()[k]).1@.1 != service_name@,
        {
            let (pid, service) = entry;
            if service.name == wanted {
                return Some(*pid);
            }
        }
        None
    }

    /// The process ids of all recorded services, each once.
    pub fn pids(&self) -> (r: Vec<u32>)
        ensures
            r@.to_set() == self@.dom(),
            r@.no_duplicates(),
    {
        let mut r: Vec<u32> = Vec::new();
        for pid in it: self.0.keys()
            invariant
                r@ == it.seq().unref().take(it.index() as int),
                it.seq().unref().take(it.seq().len() as int) == it.seq().unref(),
                it.seq().unref().to_set() == self@.dom(),
                it.seq().unref().no_duplicates(),
        {
            r.push(*pid);
        }
        r
    }

    /// Forgets every service whose process id is in `exited`.
    pub fn remove_exited(&mut self, exited: &Vec<u32>)
        ensures
            final(self)@ == old(self)@.remove_keys(exited@.to_set()),
            final(self)@ == table_step(old(self)@, TableStep::RemoveExited(exited@)),
            keys_are_ids(old(self)@) ==> keys_are_ids(final(self)@),
    {
        let mut i: usize = 0;
        while i < exited.len()
            invariant
                i <= exited.len(),
                self@ == old(self)@.remove_keys(exited@.take(i as int).to_set()),
            decreases exited.len() - i,
        {
            self.0.remove(&exited[i]);
            proof {
                let a = exited@.take(i + 1);
                let b = exited@.take(i as int);
                let x = exited@[i as int];
                assert forall|p: u32| a.contains(p) <==> (b.contains(p) || p == x) by {
                    if a.contains(p) {
                        let j = choose|j: int| 0 <= j < a.len() && a[j] == p;
                        if j < i {
                            assert(b[j] == p);
                        }
                    }
                    if b.contains(p) {
                        let j = choose|j: int| 0 <= j < b.len() && b[j] == p;
                        assert(a[j] == p);
                    }
                    if p == x {
                        assert(a[i as int] == p);
                    }
                }
                assert(a.to_set() =~= b.to_set().insert(x));
                assert(old(self)@.remove_keys(exited@.take(i + 1).to_set()) =~= old(
                    self,
                )@.remove_keys(exited@.take(i as int).to_set()).remove(exited@[i as int]));
            }
            i += 1;
        }
        assert(exited@.take(exited.len() as int) =~= exited@);
    }
}

/// What a read gives back of a write: after `insert(service)` turned
/// `before` into `after`, `get` of the service's process id gives the
/// service, `pid_of` of its name finds a process (it cannot answer
/// `None`), and every service stays recorded under its own id.
pub proof fn law_recorded_service_is_found(
    before: ServiceTable,
    after: ServiceTable,
    service: Service,
)
    requires
        after@ == before@.insert(service@.0, service),
    ensures
        after@.contains_key(service@.0),
        after@[service@.0] == service,
        exists|pid: u32| #[trigger] after@.contains_key(pid) && after@[pid]@.1 == service@.1,
        keys_are_ids(before@) ==> keys_are_ids(after@),
{
    assert(after@.contains_key(service@.0));
}

/// After `remove(pid)` turned `before` into `after`, `get(pid)` answers
/// `None` and every other process keeps its service.
pub proof fn law_remove_keeps_others(before: ServiceTable, after: ServiceTable, pid: u32, other: u32)
    requires
        after@ == before@.remove(pid),
        other != pid,
    ensures
        !after@.contains_key(pid),
        after@.contains_key(other) == before@.contains_key(other),
        before@.contains_key(other) ==> after@[other] == before@[other],
{
}

/// One change that an operation of `ServiceTable` makes: `insert`,
/// `remove`, `remove_exited`, or what a caller of `get_mut` leaves under
/// the process id it asked for.
pub enum TableStep {
    Insert(Service),
    Remove(u32),
    RemoveExited(Seq<u32>),
    Replace(u32, Service),
}

/// The table that `step` makes of `m`.
pub open spec fn table_step(m: Map<u32, Service>, step: TableStep) -> Map<u32, Service> {
    match step {
        TableStep::Insert(s) => m.insert(s@.0, s),
        TableStep::Remove(pid) => m.remove(pid),
        TableStep::RemoveExited(pids) => m.remove_keys(pids.to_set()),
        TableStep::Replace(pid, s) => if m.contains_key(pid) {
            m.insert(pid, s)
        } else {
            m
        },
    }
}

/// The step leaves each service it records under that service's own id.
pub open spec fn keeps_ids(step: TableStep) -> bool {
    step matches TableStep::Replace(pid, s) ==> s@.0 == pid
}

/// The table that `steps` make, in order, of the empty table `default`
/// gives.
pub open spec fn run_steps(steps: Seq<TableStep>) -> Map<u32, Service>
    decreases steps.len(),
{
    if steps.len() == 0 {
        Map::empty()
    } else {
        table_step(run_steps(steps.drop_last()), steps.last())
    }
}

/// A table built from `default` by any sequence of `insert`, `remove`,
/// `remove_exited` and `get_mut` calls, where each caller of `get_mut`
/// leaves a service with the id it asked for, records every service under
/// its own process id: `get(pid)` then gives a service whose id is `pid`.
pub proof fn law_keys_are_ids(steps: Seq<TableStep>, pid: u32)
    requires
        forall|i: int| 0 <= i < steps.len() ==> keeps_ids(#[trigger] steps[i]),
    ensures
        keys_are_ids(run_steps(steps)),
        run_steps(steps).contains_key(pid) ==> run_steps(steps)[pid]@.0 == pid,
    decreases steps.len(),
{
    if steps.len() > 0 {
        let init = steps.drop_last();
        assert forall|i: int| 0 <= i < init.len() implies keeps_ids(#[trigger] init[i]) by {
            assert(init[i] == steps[i]);
        }
        law_keys_are_ids(init, pid);
        assert(keeps_ids(steps[steps.len() - 1]));
    }
}

/// The step records a service under `pid`: an `insert` of a service whose
/// id is `pid`.
pub open spec fn inserts(step: TableStep, pid: u32) -> bool {
    step matches TableStep::Insert(s) && s@.0 == pid
}

/// The step forgets the service under `pid`: a `remove(pid)`, or a
/// `remove_exited` whose list holds `pid`.
pub open spec fn removes(step: TableStep, pid: u32) -> bool {
    ||| step matches TableStep::Remove(p) && p == pid
    ||| step matches TableStep::RemoveExited(ps) && ps.contains(pid)
}

/// Some step of `steps` inserted a service with id `pid`, and no later
/// step removed or reaped it.
pub open spec fn inserted_and_kept(steps: Seq<TableStep>, pid: u32) -> bool {
    exists|i: int|
        0 <= i < steps.len() && #[trigger] inserts(steps[i], pid) && forall|j: int|
            i < j < steps.len() ==> !removes(#[trigger] steps[j], pid)
}

/// The service last written under `pid` by `steps` and not forgotten
/// since: by an `insert` of a service with that id, or by a caller of
/// `get_mut(pid)` while a service was recorded there.
pub open spec fn last_written(steps: Seq<TableStep>, pid: u32) -> Option<Service>
    decreases steps.len(),
{
    if steps.len() == 0 {
        None
    } else {
        let before = last_written(steps.drop_last(), pid);
        match steps.last() {
            TableStep::Insert(s) => if s@.0 == pid {
                Some(s)
            } else {
                before
            },
            TableStep::Remove(p) => if p == pid {
                None
            } else {
                before
            },
            TableStep::RemoveExited(ps) => if ps.contains(pid) {
                None
            } else {
                before
            },
            TableStep::Replace(p, s) => if p == pid && before is Some {
                Some(s)
            } else {
                before
            },
        }
    }
}

/// In a table built from `default` by any sequence of `insert`, `remove`,
/// `remove_exited` and `get_mut` calls, `get(pid)` finds a service exactly
/// when a service with id `pid` was inserted and neither removed nor reaped
/// since, and the service it finds is the one last written under `pid`.
pub proof fn law_present_iff_inserted_and_kept(steps: Seq<TableStep>, pid: u32)
    ensures
        run_steps(steps).contains_key(pid) <==> inserted_and_kept(steps, pid),
        run_steps(steps).contains_key(pid) <==> last_written(steps, pid) is Some,
        last_written(steps, pid) matches Some(s) ==> run_steps(steps)[pid] == s,
    decreases steps.len(),
{
    if steps.len() > 0 {
        let init = steps.drop_last();
        let n = steps.len() - 1;
        let last = steps[n];
        law_present_iff_inserted_and_kept(init, pid);
        assert forall|i: int| 0 <= i < init.len() implies #[trigger] init[i] == steps[i] by {}
        if inserts(last, pid) {
            assert(!removes(last, pid));
            assert(inserted_and_kept(steps, pid)) by {
                assert(inserts(steps[n], pid));
            }
        } else if removes(last, pid) {
            if inserted_and_kept(steps, pid) {
                let i = choose|i: int|
                    0 <= i < steps.len() && #[trigger] inserts(steps[i], pid) && forall|j: int|
                        i < j < steps.len() ==> !removes(#[trigger] steps[j], pid);
                if i < n {
                    assert(!removes(steps[n], pid));
                }
            }
            match last {
                TableStep::RemoveExited(ps) => {
                    assert(ps.to_set().contains(pid));
                },
                _ => {},
            }
        } else {
            if inserted_and_kept(steps, pid) {
                let i = choose|i: int|
                    0 <= i < steps.len() && #[trigger] inserts(steps[i], pid) && forall|j: int|
                        i < j < steps.len() ==> !removes(#[trigger] steps[j], pid);
                assert(i < n);
                assert(inserts(init[i], pid));
                assert forall|j: int| i < j < init.len() implies !removes(#[trigger] init[j], pid) by {
                    assert(!removes(steps[j], pid));
                }
            }
            if inserted_and_kept(init, pid) {
                let i = choose|i: int|
                    0 <= i < init.len() && #[trigger] inserts(init[i], pid) && forall|j: int|
                        i < j < init.len() ==> !removes(#[trigger] init[j], pid);
                assert(inserts(steps[i], pid));
                assert forall|j: int| i < j < steps.len() implies !removes(#[trigger] steps[j], pid) by {
                    if j < n {
                        assert(!removes(init[j], pid));
                    }
                }
            }
            match last {
                TableStep::RemoveExited(ps) => {
                    assert(!ps.to_set().contains(pid));
                },
                _ => {},
            }
        }
    }
}

} // verus!
