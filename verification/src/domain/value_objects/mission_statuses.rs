//! The lifecycle of a mission: its states and the edges between them.

use vstd::prelude::*;

verus! {

/// Where a mission stands in its lifecycle.
///
/// `Open → InProgress → Completed` and `Open → InProgress → Failed` are the
/// only paths. `Completed` and `Failed` are terminal.
#[derive(Clone, Copy, Debug, PartialEq, Eq, Structural)]
pub enum MissionStatuses {
    Open,
    InProgress,
    Completed,
    Failed,
}

/// A request to move a mission along one edge of the lifecycle.
#[derive(Clone, Copy, Debug, PartialEq, Eq, Structural)]
pub enum MissionTransition {
    /// `Open → InProgress`
    Start,
    /// `InProgress → Completed`
    Complete,
    /// `InProgress → Failed`
    Fail,
}

impl MissionStatuses {
    /// No edge leaves a terminal state.
    pub open spec fn is_terminal(self) -> bool {
        self == MissionStatuses::Completed || self == MissionStatuses::Failed
    }

    /// The legal edges. Staying in place is not one of them.
    pub open spec fn permits(self, next: MissionStatuses) -> bool {
        match (self, next) {
            (MissionStatuses::Open, MissionStatuses::InProgress) => true,
            (MissionStatuses::InProgress, MissionStatuses::Completed) => true,
            (MissionStatuses::InProgress, MissionStatuses::Failed) => true,
            _ => false,
        }
    }

    /// The text that stands for the status in listings and messages.
    pub open spec fn name(self) -> Seq<char> {
        match self {
            MissionStatuses::Open => "Open"@,
            MissionStatuses::InProgress => "InProgress"@,
            MissionStatuses::Completed => "Completed"@,
            MissionStatuses::Failed => "Failed"@,
        }
    }

    /// Whether `next` can be reached from `self` in one step.
    pub fn can_become(self, next: MissionStatuses) -> (legal: bool)
        ensures
            legal == self.permits(next),
    {
        match self {
            MissionStatuses::Open => next == MissionStatuses::InProgress,
            MissionStatuses::InProgress => next == MissionStatuses::Completed || next
                == MissionStatuses::Failed,
            MissionStatuses::Completed => false,
            MissionStatuses::Failed => false,
        }
    }

    /// The status that `text` names, if it names one. Names are taken as they are.
    pub open spec fn named(text: Seq<char>) -> Option<MissionStatuses> {
        if text == "Open"@ {
            Some(MissionStatuses::Open)
        } else if text == "InProgress"@ {
            Some(MissionStatuses::InProgress)
        } else if text == "Completed"@ {
            Some(MissionStatuses::Completed)
        } else if text == "Failed"@ {
            Some(MissionStatuses::Failed)
        } else {
            None
        }
    }

    /// Reads a status from its name.
    pub fn from_str(text: &str) -> (status: Option<MissionStatuses>)
        ensures
            status == MissionStatuses::named(text@),
    {
        let text = text.to_owned();
        if text == "Open".to_owned() {
            Some(MissionStatuses::Open)
        } else if text == "InProgress".to_owned() {
            Some(MissionStatuses::InProgress)
        } else if text == "Completed".to_owned() {
            Some(MissionStatuses::Completed)
        } else if text == "Failed".to_owned() {
            Some(MissionStatuses::Failed)
        } else {
            None
        }
    }

    /// The status as text.
    pub fn to_string(&self) -> (text: String)
        ensures
            text@ == self.name(),
    {
        match self {
            MissionStatuses::Open => "Open".to_owned(),
            MissionStatuses::InProgress => "InProgress".to_owned(),
            MissionStatuses::Completed => "Completed".to_owned(),
            MissionStatuses::Failed => "Failed".to_owned(),
        }
    }
}

impl Default for MissionStatuses {
    /// A mission is `Open` when it is created.
    fn default() -> (status: MissionStatuses)
        ensures
            status == MissionStatuses::Open,
    {
        MissionStatuses::Open
    }
}

impl MissionTransition {
    /// The state a mission must be in for the edge to be taken.
    pub open spec fn source(self) -> MissionStatuses {
        match self {
            MissionTransition::Start => MissionStatuses::Open,
            MissionTransition::Complete => MissionStatuses::InProgress,
            MissionTransition::Fail => MissionStatuses::InProgress,
        }
    }

    /// The state the edge leads to.
    pub open spec fn target(self) -> MissionStatuses {
        match self {
            MissionTransition::Start => MissionStatuses::InProgress,
            MissionTransition::Complete => MissionStatuses::Completed,
            MissionTransition::Fail => MissionStatuses::Failed,
        }
    }

    /// Whether a mission in state `from` can take this edge.
    pub open spec fn leaves(self, from: MissionStatuses) -> bool {
        from == self.source()
    }

    /// The state a mission must be in for the edge to be taken.
    pub fn expected(self) -> (status: MissionStatuses)
        ensures
            status == self.source(),
    {
        match self {
            MissionTransition::Start => MissionStatuses::Open,
            MissionTransition::Complete => MissionStatuses::InProgress,
            MissionTransition::Fail => MissionStatuses::InProgress,
        }
    }

    /// The state the edge leads to.
    pub fn outcome(self) -> (status: MissionStatuses)
        ensures
            status == self.target(),
    {
        match self {
            MissionTransition::Start => MissionStatuses::InProgress,
            MissionTransition::Complete => MissionStatuses::Completed,
            MissionTransition::Fail => MissionStatuses::Failed,
        }
    }
}

/// Every status is read back from its own name.
pub proof fn lemma_status_names_round_trip(status: MissionStatuses)
    ensures
        MissionStatuses::named(status.name()) == Some(status),
{
    reveal_strlit("Open");
    reveal_strlit("InProgress");
    reveal_strlit("Completed");
    reveal_strlit("Failed");
    assert("Open"@.len() == 4 && "InProgress"@.len() == 10 && "Completed"@.len() == 9
        && "Failed"@.len() == 6);
}

/// Every edge that a transition names is a legal edge, and it moves the mission.
pub proof fn lemma_transitions_are_legal(edge: MissionTransition)
    ensures
        edge.source().permits(edge.target()),
        edge.source() != edge.target(),
        !edge.source().is_terminal(),
{
}

/// Every legal edge is named by exactly one transition.
pub proof fn lemma_legal_edges_are_transitions(from: MissionStatuses, to: MissionStatuses)
    requires
        from.permits(to),
    ensures
        exists|edge: MissionTransition| edge.source() == from && edge.target() == to,
{
    if from == MissionStatuses::Open {
        assert(MissionTransition::Start.source() == from && MissionTransition::Start.target()
            == to);
    } else if to == MissionStatuses::Completed {
        assert(MissionTransition::Complete.source() == from
            && MissionTransition::Complete.target() == to);
    } else {
        assert(MissionTransition::Fail.source() == from && MissionTransition::Fail.target() == to);
    }
}

/// Nothing leaves a terminal state, and no state leads to itself.
pub proof fn lemma_terminal_and_self_edges(from: MissionStatuses, to: MissionStatuses)
    ensures
        from.is_terminal() ==> !from.permits(to),
        !from.permits(from),
        to == MissionStatuses::Open ==> !from.permits(to),
{
}

} // verus!
