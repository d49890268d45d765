use crate::models::{AgentInfo, ProcessInfo};
use crate::scanner::str_equal;
use vstd::prelude::*;

verus! {

/// The discovered agents, each with the process it is believed to run. An agent keeps
/// its position for the registry's lifetime, so a position names it.
pub struct Registry {
    agents: Vec<AgentInfo>,
    processes: Vec<Option<ProcessInfo>>,
}

impl Registry {
    pub closed spec fn agents_view(&self) -> Seq<AgentInfo> {
        self.agents@
    }

    pub closed spec fn processes_view(&self) -> Seq<Option<ProcessInfo>> {
        self.processes@
    }

    /// The ids of the agents, in order.
    pub open spec fn ids(&self) -> Seq<Seq<char>> {
        self.agents_view().map_values(|a: AgentInfo| a.id@)
    }

    /// One process slot per agent, and no id twice.
    pub open spec fn wf(&self) -> bool {
        &&& self.agents_view().len() == self.processes_view().len()
        &&& forall|i: int, j: int|
            0 <= i < j < self.agents_view().len() ==> (#[trigger] self.agents_view()[i]).id@
                != (#[trigger] self.agents_view()[j]).id@
    }

    pub fn new() -> (r: Self)
        ensures
            r.wf(),
            r.agents_view().len() == 0,
    {
        Registry { agents: Vec::new(), processes: Vec::new() }
    }

    /// The number of agents.
    pub fn len(&self) -> (r: usize)
        ensures
            r == self.agents_view().len(),
    {
        self.agents.len()
    }

    /// The position of the agent with id `id`, if there is one.
    pub fn find(&self, id: &str) -> (r: Option<usize>)
        ensures
            r.is_some() ==> r.unwrap() < self.agents_view().len() && self.agents_view()[r.unwrap() as int].id@ == id@,
            r.is_none() ==> forall|k: int| 0 <= k < self.agents_view().len() ==> (#[trigger] self.agents_view()[k]).id@ != id@,
    {
        let mut i: usize = 0;
        while i < self.agents.len()
            invariant
                i <= self.agents@.len(),
                forall|k: int| 0 <= k < i ==> (#[trigger] self.agents@[k]).id@ != id@,
            decreases self.agents@.len() - i,
        {
            if str_equal(self.agents[i].id.as_str(), id) {
                return Some(i);
            }
            i = i + 1;
        }
        None
    }

    /// Adds an agent unless one with the same id is there already; the first one
    /// discovered is kept. Returns whether it was added.
    pub fn register(&mut self, agent: AgentInfo) -> (r: bool)
        requires
            old(self).wf(),
        ensures
            final(self).wf(),
            r == forall|k: int| 0 <= k < old(self).agents_view().len() ==> (#[trigger] old(self).agents_view()[k]).id@ != agent.id@,
            r ==> final(self).agents_view() == old(self).agents_view().push(agent),
            r ==> final(self).processes_view() == old(self).processes_view().push(None),
            !r ==> final(self).agents_view() == old(self).agents_view(),
            !r ==> final(self).processes_view() == old(self).processes_view(),
    {
        if self.find(agent.id.as_str()).is_some() {
            return false;
        }
        self.agents.push(agent);
        self.processes.push(None);
        true
    }

    /// The agent at position `k`.
    pub fn agent_at(&self, k: usize) -> (r: &AgentInfo)
        requires
            k < self.agents_view().len(),
        ensures
            *r == self.agents_view()[k as int],
    {
        &self.agents[k]
    }

    /// The process the agent at position `k` is believed to run.
    pub fn process_at(&self, k: usize) -> (r: Option<ProcessInfo>)
        requires
            self.wf(),
            k < self.agents_view().len(),
        ensures
            r == self.processes_view()[k as int],
    {
        self.processes[k]
    }

    /// Records the process just launched for the agent at position `k`. A process
    /// recorded earlier for it is no longer tracked.
    pub fn record_launch(&mut self, k: usize, info: ProcessInfo)
        requires
            old(self).wf(),
            k < old(self).agents_view().len(),
        ensures
            final(self).wf(),
            final(self).agents_view() == old(self).agents_view(),
            final(self).processes_view() == old(self).processes_view().update(k as int, Some(info)),
    {
        self.processes[k] = Some(info);
    }

    /// Settles a launch of the agent at position `k`: a process is recorded only where
    /// one was started, and a refused launch leaves every record as it was.
    pub fn finish_launch(&mut self, k: usize, launched: Option<ProcessInfo>)
        requires
            old(self).wf(),
            k < old(self).agents_view().len(),
        ensures
            final(self).wf(),
            final(self).agents_view() == old(self).agents_view(),
            final(self).processes_view() == (match launched {
                Some(p) => old(self).processes_view().update(k as int, Some(p)),
                None => old(self).processes_view(),
            }),
    {
        if let Some(p) = launched {
            self.record_launch(k, p);
        }
    }

    /// Settles a stop of the agent at position `k`: its process is forgotten only
    /// where the stop succeeded, so a process that may still run stays tracked.
    pub fn finish_stop(&mut self, k: usize, succeeded: bool)
        requires
            old(self).wf(),
            k < old(self).agents_view().len(),
        ensures
            final(self).wf(),
            final(self).agents_view() == old(self).agents_view(),
            final(self).processes_view() == (if succeeded {
                old(self).processes_view().update(k as int, None)
            } else {
                old(self).processes_view()
            }),
    {
        if succeeded {
            self.processes[k] = None;
        }
    }
}

} // verus!
