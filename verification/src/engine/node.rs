//! The node supervisor: what it does when an actor stops, fails, or reports a
//! failure that makes a restart unsafe.

use vstd::prelude::*;
use vstd::string::*;

verus! {

/// The messages that the supervisor handles.
pub enum NodeMsg {
    /// A failure after which a restart could sign a conflicting message. The
    /// text is a reason for the logs.
    SafetyFailure(String),
}

/// The state of the supervisor.
#[derive(Clone, Copy, Debug, PartialEq, Eq, Structural)]
pub struct NodeState {
    /// The node hangs: its actors are being stopped, it stays alive for the
    /// operator, and nothing makes it exit.
    pub safety_hang: bool,
    /// The node is stopping, so that actors that stop are part of that.
    pub shutting_down: bool,
}

/// What became of an actor.
pub enum SupervisionEvent {
    /// The actor with this identifier has started.
    ActorStarted(String),
    /// The actor with this identifier has terminated, for this reason.
    ActorTerminated(String, Option<String>),
    /// The actor with this identifier has failed, with this error.
    ActorFailed(String, String),
    /// A group of actors has changed.
    ProcessGroupChanged,
}

/// What the supervisor does.
pub enum NodeAction {
    /// Nothing.
    Stay,
    /// Flag the safety failure and stop all actors, for this reason, while the
    /// node stays alive.
    HangAndStopChildren(String),
    /// Stop the node, for this reason, so that the process is restarted.
    Stop(String),
}

/// The text `prefix`, `id` and, in parentheses, `detail`.
pub open spec fn stop_reason(prefix: Seq<char>, id: Seq<char>, detail: Seq<char>) -> Seq<char> {
    prefix + id + " ("@ + detail + ")"@
}

/// The text `prefix`, `id` and, in parentheses, `detail`.
fn build_stop_reason(prefix: &str, id: &String, detail: &String) -> (r: String)
    ensures
        r@ == stop_reason(prefix@, id@, detail@),
{
    prefix.to_owned().concat(id.as_str()).concat(" (").concat(detail.as_str()).concat(")")
}

impl NodeState {
    /// The supervisor of a node that has just started.
    pub fn new() -> (r: Self)
        ensures
            r == (NodeState { safety_hang: false, shutting_down: false }),
    {
        NodeState { safety_hang: false, shutting_down: false }
    }

    /// Whether actors that stop or fail are expected to.
    pub open spec fn absorbs(self) -> bool {
        self.safety_hang || self.shutting_down
    }

    /// Handle a message. The first safety failure hangs the node; further ones
    /// change nothing.
    pub fn handle(&mut self, msg: NodeMsg) -> (r: NodeAction)
        ensures
            match msg {
                NodeMsg::SafetyFailure(reason) => {
                    &&& *final(self) == (NodeState { safety_hang: true, ..*old(self) })
                    &&& r == if old(self).safety_hang {
                        NodeAction::Stay
                    } else {
                        NodeAction::HangAndStopChildren(reason)
                    }
                },
            },
    {
        match msg {
            NodeMsg::SafetyFailure(reason) => {
                if self.safety_hang {
                    return NodeAction::Stay;
                }
                self.safety_hang = true;
                NodeAction::HangAndStopChildren(reason)
            },
        }
    }

    /// Handle what became of an actor. One that stops or fails stops the node,
    /// unless the node hangs or is stopping already.
    pub fn handle_supervisor_evt(&mut self, evt: SupervisionEvent) -> (r: NodeAction)
        ensures
            final(self).safety_hang == old(self).safety_hang,
            match evt {
                SupervisionEvent::ActorStarted(_) => *final(self) == *old(self) && r
                    == NodeAction::Stay,
                SupervisionEvent::ProcessGroupChanged => *final(self) == *old(self) && r
                    == NodeAction::Stay,
                SupervisionEvent::ActorTerminated(id, reason) => if old(self).absorbs() {
                    *final(self) == *old(self) && r == NodeAction::Stay
                } else {
                    &&& final(self).shutting_down
                    &&& r matches NodeAction::Stop(m)
                    &&& m@ == stop_reason(
                        "child actor terminated: "@,
                        id@,
                        match reason {
                            Some(t) => t@,
                            None => Seq::empty(),
                        },
                    )
                },
                SupervisionEvent::ActorFailed(id, error) => if old(self).absorbs() {
                    *final(self) == *old(self) && r == NodeAction::Stay
                } else {
                    &&& final(self).shutting_down
                    &&& r matches NodeAction::Stop(m)
                    &&& m@ == stop_reason("child actor failed: "@, id@, error@)
                },
            },
    {
        match evt {
            SupervisionEvent::ActorStarted(_) => NodeAction::Stay,
            SupervisionEvent::ActorTerminated(id, reason) => {
                if self.safety_hang || self.shutting_down {
                    return NodeAction::Stay;
                }
                let text = match reason {
                    Some(t) => t,
                    None => String::new(),
                };
                self.shutting_down = true;
                NodeAction::Stop(build_stop_reason("child actor terminated: ", &id, &text))
            },
            SupervisionEvent::ActorFailed(id, error) => {
                if self.safety_hang || self.shutting_down {
                    return NodeAction::Stay;
                }
                self.shutting_down = true;
                NodeAction::Stop(build_stop_reason("child actor failed: ", &id, &error))
            },
            SupervisionEvent::ProcessGroupChanged => NodeAction::Stay,
        }
    }
}

/// What the supervisor is told.
pub enum NodeInput {
    Msg(NodeMsg),
    Supervision(SupervisionEvent),
}

/// The state of the supervisor after `input`.
pub open spec fn node_next(s: NodeState, input: NodeInput) -> NodeState {
    match input {
        NodeInput::Msg(NodeMsg::SafetyFailure(_)) => NodeState { safety_hang: true, ..s },
        NodeInput::Supervision(SupervisionEvent::ActorStarted(_)) => s,
        NodeInput::Supervision(SupervisionEvent::ProcessGroupChanged) => s,
        NodeInput::Supervision(_) => if s.absorbs() {
            s
        } else {
            NodeState { shutting_down: true, ..s }
        },
    }
}

/// Whether the supervisor stops the node on `input`.
pub open spec fn node_stops(s: NodeState, input: NodeInput) -> bool {
    match input {
        NodeInput::Supervision(SupervisionEvent::ActorTerminated(_, _)) => !s.absorbs(),
        NodeInput::Supervision(SupervisionEvent::ActorFailed(_, _)) => !s.absorbs(),
        _ => false,
    }
}

/// The state of the supervisor after `inputs`, one after the other.
pub open spec fn node_run(s: NodeState, inputs: Seq<NodeInput>) -> NodeState
    decreases inputs.len(),
{
    if inputs.len() == 0 {
        s
    } else {
        node_next(node_run(s, inputs.drop_last()), inputs.last())
    }
}

impl NodeState {
    /// Handle whatever the supervisor is told.
    pub fn step(&mut self, input: NodeInput) -> (r: NodeAction)
        ensures
            *final(self) == node_next(*old(self), input),
            (r is Stop) == node_stops(*old(self), input),
            (r is HangAndStopChildren) == (input is Msg && !old(self).safety_hang),
    {
        match input {
            NodeInput::Msg(m) => self.handle(m),
            NodeInput::Supervision(e) => self.handle_supervisor_evt(e),
        }
    }
}

/// Once the node hangs it hangs for good, and nothing that follows stops it.
pub proof fn law_safety_hang_is_final(s: NodeState, inputs: Seq<NodeInput>, next: NodeInput)
    requires
        s.safety_hang,
    ensures
        node_run(s, inputs).safety_hang,
        !node_stops(node_run(s, inputs), next),
    decreases inputs.len(),
{
    if inputs.len() > 0 {
        law_safety_hang_is_final(s, inputs.drop_last(), inputs.last());
    }
}

/// The node is stopped at most once.
pub proof fn law_node_stops_once(s: NodeState, first: NodeInput, between: Seq<NodeInput>, next: NodeInput)
    requires
        node_stops(s, first),
    ensures
        !node_stops(node_run(node_next(s, first), between), next),
    decreases between.len(),
{
    lemma_shutting_down_stays(node_next(s, first), between);
}

proof fn lemma_shutting_down_stays(s: NodeState, inputs: Seq<NodeInput>)
    requires
        s.shutting_down,
    ensures
        node_run(s, inputs).shutting_down,
    decreases inputs.len(),
{
    if inputs.len() > 0 {
        lemma_shutting_down_stays(s, inputs.drop_last());
    }
}

} // verus!
