//! The agents that sessions can be created with.
use crate::model::AgentServerId;
use crate::solution::Solution;
use crate::text::same_text;
use std::sync::Arc;
use vstd::prelude::*;
use vstd::string::*;

verus! {

/// The pictograms that stand for agents.
#[derive(Clone, Copy, Debug, PartialEq, Eq, Structural)]
pub enum IconName {
    AiClaude,
    Sparkle,
}

/// What has to be known of an agent.
pub trait SolutionAgentAdapter: Send + Sync {
    /// The id of the agent.
    fn agent_id(&self) -> (r: AgentServerId);

    /// What the user sees of it.
    fn display_name(&self) -> (r: String);

    fn icon(&self) -> (r: IconName);

    /// What the agent is told of the solution before anything else.
    fn build_initial_system_prompt(&self, solution: &Solution) -> (r: String);

    /// Whether the agent can go on with a conversation after a restart.
    fn supports_resume(&self) -> (r: bool)
        default_ensures
            !r,
    {
        false
    }
}

/// Whether an adapter may answer that its id is `id`.
pub open spec fn goes_by<A: SolutionAgentAdapter + ?Sized>(adapter: &A, id: Seq<char>) -> bool {
    exists|answer: AgentServerId|
        answer@ == id && #[trigger] call_ensures(A::agent_id, (adapter,), answer)
}

/// Whether an adapter may answer that the user sees `name` of it.
pub open spec fn is_called<A: SolutionAgentAdapter + ?Sized>(adapter: &A, name: Seq<char>) -> bool {
    exists|answer: String|
        answer@ == name && #[trigger] call_ensures(A::display_name, (adapter,), answer)
}

/// The agents by id, in the order in which their ids were first registered.
pub struct AdapterRegistry<A: SolutionAgentAdapter + ?Sized> {
    adapters: Vec<Arc<A>>,
    order: Vec<AgentServerId>,
}

impl<A: SolutionAgentAdapter + ?Sized> AdapterRegistry<A> {
    /// The registered ids, in the order in which they were first registered.
    pub closed spec fn ids(self) -> Seq<Seq<char>> {
        self.order.deep_view()
    }

    /// The adapter of each registered id.
    pub closed spec fn at(self, i: int) -> Arc<A> {
        self.adapters@[i]
    }

    /// Every id has an adapter that goes by it, and is there once.
    pub closed spec fn wf(self) -> bool {
        &&& self.adapters@.len() == self.order@.len()
        &&& forall|i: int|
            0 <= i < self.order@.len() ==> goes_by(
                &*#[trigger] self.adapters@[i],
                self.order@[i]@,
            )
        &&& forall|i: int, j: int|
            0 <= i < j < self.order@.len() ==> (#[trigger] self.order@[i])@ != (
            #[trigger] self.order@[j])@
    }

    /// Whether `id` is registered at position `i`.
    pub open spec fn is_at(self, id: Seq<char>, i: int) -> bool {
        0 <= i < self.ids().len() && self.ids()[i] == id
    }

    /// An empty registry.
    pub fn new() -> (r: Self)
        ensures
            r.wf(),
            r.ids() == Seq::<Seq<char>>::empty(),
    {
        let r = AdapterRegistry { adapters: Vec::new(), order: Vec::new() };
        assert(r.ids() =~= Seq::<Seq<char>>::empty());
        r
    }

    /// The position of an id.
    fn position(&self, id: &str) -> (r: Option<usize>)
        requires
            self.wf(),
        ensures
            match r {
                Some(i) => self.is_at(id@, i as int) && i < self.order@.len(),
                None => !self.ids().contains(id@),
            },
    {
        let mut i: usize = 0;
        while i < self.order.len()
            invariant
                i <= self.order@.len(),
                forall|k: int| 0 <= k < i ==> #[trigger] self.ids()[k] != id@,
            decreases self.order@.len() - i,
        {
            assert(self.ids()[i as int] == self.order@[i as int]@);
            if same_text(self.order[i].as_str(), id) {
                return Some(i);
            }
            i += 1;
        }
        None
    }

    /// Whether `before` turns into this registry when an adapter that goes by
    /// `id` is registered: one with the same id is replaced and keeps its place.
    pub open spec fn adds(self, before: Self, id: Seq<char>, adapter: Arc<A>) -> bool {
        if before.ids().contains(id) {
            &&& self.ids() == before.ids()
            &&& forall|i: int|
                0 <= i < before.ids().len() ==> #[trigger] self.at(i) == if before.ids()[i] == id {
                    adapter
                } else {
                    before.at(i)
                }
        } else {
            &&& self.ids() == before.ids().push(id)
            &&& forall|i: int|
                0 <= i < before.ids().len() ==> #[trigger] self.at(i) == before.at(i)
            &&& self.at(before.ids().len() as int) == adapter
        }
    }

    /// Registers an adapter under the id that it goes by. One with the same id is
    /// replaced and keeps its place.
    pub fn register(&mut self, adapter: Arc<A>)
        requires
            old(self).wf(),
        ensures
            final(self).wf(),
            exists|id: Seq<char>|
                goes_by(&*adapter, id) && #[trigger] final(self).adds(*old(self), id, adapter),
    {
        let id = adapter.agent_id();
        assert(call_ensures(A::agent_id, (&*adapter,), id));
        assert(goes_by(&*adapter, id@));
        let ghost named = id@;
        let ghost ids = self.ids();
        assert(ids.len() == self.order@.len());
        assert(forall|k: int| 0 <= k < ids.len() ==> #[trigger] ids[k] == self.order@[k]@);
        match self.position(id.as_str()) {
            Some(i) => {
                assert(ids[i as int] == id@);
                assert(ids.contains(id@));
                self.adapters.set(i, adapter);
                assert(self.ids() =~= ids);
                proof {
                    assert forall|k: int| 0 <= k < ids.len() implies #[trigger] self.at(k) == if ids[k]
                        == id@ {
                        adapter
                    } else {
                        old(self).at(k)
                    } by {
                        if k != i && ids[k] == id@ {
                            assert(self.order@[k]@ == self.order@[i as int]@);
                        }
                    }
                }
            },
            None => {
                self.order.push(id);
                self.adapters.push(adapter);
                assert(self.ids() =~= ids.push(id@));
                proof {
                    assert forall|i: int, j: int| 0 <= i < j < self.order@.len() implies (
                    #[trigger] self.order@[i])@ != (#[trigger] self.order@[j])@ by {
                        assert(ids[i] == self.order@[i]@);
                        if j < ids.len() {
                            assert(ids[j] == self.order@[j]@);
                        } else {
                            assert(ids.contains(ids[i]));
                        }
                    }
                }
            },
        }
        assert(self.adds(*old(self), named, adapter));
    }

    /// The adapter with the given id.
    pub fn get(&self, id: &AgentServerId) -> (r: Option<Arc<A>>)
        requires
            self.wf(),
        ensures
            match r {
                Some(adapter) => exists|i: int|
                    #[trigger] self.is_at(id@, i) && adapter == self.at(i),
                None => !self.ids().contains(id@),
            },
            r matches Some(adapter) ==> goes_by(&*adapter, id@),
    {
        match self.position(id.as_str()) {
            Some(i) => Some(self.adapters[i].clone()),
            None => None,
        }
    }

    /// The registered ids, in the order in which they were first registered.
    pub fn supported_ids(&self) -> (r: &Vec<AgentServerId>)
        ensures
            r.deep_view() == self.ids(),
    {
        &self.order
    }
}

impl<A: SolutionAgentAdapter + ?Sized> Default for AdapterRegistry<A> {
    fn default() -> (r: Self)
        ensures
            r.wf(),
            r.ids() == Seq::<Seq<char>>::empty(),
    {
        Self::new()
    }
}

/// No id is registered twice.
pub proof fn law_ids_are_distinct<A: SolutionAgentAdapter + ?Sized>(
    registry: AdapterRegistry<A>,
    i: int,
    j: int,
)
    requires
        registry.wf(),
        0 <= i < j < registry.ids().len(),
    ensures
        registry.ids()[i] != registry.ids()[j],
{
    assert(registry.ids()[i] == registry.order@[i]@);
    assert(registry.ids()[j] == registry.order@[j]@);
}

} // verus!
