//! The ways an operation can be refused.
//!
//! Every refusal is an ordinary value that the caller can act on. None of them
//! is a fault of the program.

use vstd::prelude::*;

verus! {

/// Why an actor was not admitted to a crew.
#[derive(Clone, Copy, Debug, PartialEq, Eq, Structural)]
pub enum AdmitError {
    /// The mission does not exist or was deleted.
    MissionNotFound,
    /// The crew is already at capacity.
    CapacityExceeded,
    /// The actor already crews the mission.
    AlreadyMember,
}

/// Why an actor could not leave a crew.
#[derive(Clone, Copy, Debug, PartialEq, Eq, Structural)]
pub enum ReleaseError {
    /// The actor does not crew the mission.
    NotAMember,
}

/// Why a mission did not move along its lifecycle.
#[derive(Clone, Copy, Debug, PartialEq, Eq, Structural)]
pub enum TransitionError {
    /// The mission does not exist or was deleted.
    MissionNotFound,
    /// The actor who asked is not the owner of the mission.
    NotOwner,
    /// The mission's status has no such edge.
    IllegalTransition,
    /// The status changed between the moment it was read and the moment of the write.
    ConcurrentModification,
}

/// Every kind of refusal that crosses the boundary of the library.
#[derive(Clone, Copy, Debug, PartialEq, Eq, Structural)]
pub enum ErrorKind {
    NotFound,
    CapacityExceeded,
    AlreadyMember,
    NotAMember,
    NotOwner,
    IllegalTransition,
    ConcurrentModification,
    StoreUnavailable,
}

impl AdmitError {
    pub open spec fn spec_kind(self) -> ErrorKind {
        match self {
            AdmitError::MissionNotFound => ErrorKind::NotFound,
            AdmitError::CapacityExceeded => ErrorKind::CapacityExceeded,
            AdmitError::AlreadyMember => ErrorKind::AlreadyMember,
        }
    }

    /// The kind under which the refusal is reported.
    pub fn kind(self) -> (kind: ErrorKind)
        ensures
            kind == self.spec_kind(),
    {
        match self {
            AdmitError::MissionNotFound => ErrorKind::NotFound,
            AdmitError::CapacityExceeded => ErrorKind::CapacityExceeded,
            AdmitError::AlreadyMember => ErrorKind::AlreadyMember,
        }
    }
}

impl ReleaseError {
    pub open spec fn spec_kind(self) -> ErrorKind {
        ErrorKind::NotAMember
    }

    /// The kind under which the refusal is reported.
    pub fn kind(self) -> (kind: ErrorKind)
        ensures
            kind == self.spec_kind(),
    {
        ErrorKind::NotAMember
    }
}

impl TransitionError {
    pub open spec fn spec_kind(self) -> ErrorKind {
        match self {
            TransitionError::MissionNotFound => ErrorKind::NotFound,
            TransitionError::NotOwner => ErrorKind::NotOwner,
            TransitionError::IllegalTransition => ErrorKind::IllegalTransition,
            TransitionError::ConcurrentModification => ErrorKind::ConcurrentModification,
        }
    }

    /// The kind under which the refusal is reported.
    pub fn kind(self) -> (kind: ErrorKind)
        ensures
            kind == self.spec_kind(),
    {
        match self {
            TransitionError::MissionNotFound => ErrorKind::NotFound,
            TransitionError::NotOwner => ErrorKind::NotOwner,
            TransitionError::IllegalTransition => ErrorKind::IllegalTransition,
            TransitionError::ConcurrentModification => ErrorKind::ConcurrentModification,
        }
    }
}

impl ErrorKind {
    /// The message a client sees for the kind.
    pub open spec fn text(self) -> Seq<char> {
        match self {
            ErrorKind::NotFound => "mission not found"@,
            ErrorKind::CapacityExceeded => "mission is full"@,
            ErrorKind::AlreadyMember => "already joined"@,
            ErrorKind::NotAMember => "not a crew member"@,
            ErrorKind::NotOwner => "not your mission"@,
            ErrorKind::IllegalTransition => "illegal status transition"@,
            ErrorKind::ConcurrentModification => "mission changed concurrently"@,
            ErrorKind::StoreUnavailable => "store unavailable"@,
        }
    }

    /// The HTTP status under which the kind is reported.
    pub open spec fn status(self) -> u16 {
        match self {
            ErrorKind::NotFound => 404,
            ErrorKind::NotAMember => 404,
            ErrorKind::NotOwner => 403,
            ErrorKind::CapacityExceeded => 409,
            ErrorKind::AlreadyMember => 409,
            ErrorKind::IllegalTransition => 409,
            ErrorKind::ConcurrentModification => 409,
            ErrorKind::StoreUnavailable => 503,
        }
    }

    /// Only a failure of the store itself is worth trying again unchanged.
    pub open spec fn retryable(self) -> bool {
        self == ErrorKind::StoreUnavailable
    }

    /// The message a client sees for the kind.
    pub fn message(&self) -> (text: String)
        ensures
            text@ == self.text(),
    {
        match self {
            ErrorKind::NotFound => "mission not found".to_owned(),
            ErrorKind::CapacityExceeded => "mission is full".to_owned(),
            ErrorKind::AlreadyMember => "already joined".to_owned(),
            ErrorKind::NotAMember => "not a crew member".to_owned(),
            ErrorKind::NotOwner => "not your mission".to_owned(),
            ErrorKind::IllegalTransition => "illegal status transition".to_owned(),
            ErrorKind::ConcurrentModification => "mission changed concurrently".to_owned(),
            ErrorKind::StoreUnavailable => "store unavailable".to_owned(),
        }
    }

    /// The HTTP status under which the kind is reported. A client's mistake is
    /// a status of the 400s, and only a failure of the store is one of the 500s.
    pub fn http_status(&self) -> (code: u16)
        ensures
            code == self.status(),
            400 <= code < 600,
            code >= 500 <==> self.retryable(),
    {
        match self {
            ErrorKind::NotFound => 404,
            ErrorKind::NotAMember => 404,
            ErrorKind::NotOwner => 403,
            ErrorKind::CapacityExceeded => 409,
            ErrorKind::AlreadyMember => 409,
            ErrorKind::IllegalTransition => 409,
            ErrorKind::ConcurrentModification => 409,
            ErrorKind::StoreUnavailable => 503,
        }
    }

    /// Whether the same request may succeed if it is sent again.
    pub fn is_retryable(&self) -> (retry: bool)
        ensures
            retry == self.retryable(),
    {
        match self {
            ErrorKind::StoreUnavailable => true,
            _ => false,
        }
    }
}

/// Two kinds never share a message: a client can tell them apart by the text alone.
pub proof fn lemma_messages_are_distinct(a: ErrorKind, b: ErrorKind)
    requires
        a != b,
    ensures
        a.text() != b.text(),
{
    reveal_strlit("mission not found");
    reveal_strlit("mission is full");
    reveal_strlit("already joined");
    reveal_strlit("not a crew member");
    reveal_strlit("not your mission");
    reveal_strlit("illegal status transition");
    reveal_strlit("mission changed concurrently");
    reveal_strlit("store unavailable");
    let x = a.text();
    let y = b.text();
    if x.len() == y.len() {
        assert(x[0] != y[0] || x[4] != y[4]);
    }
}

/// The three specific refusals keep their meaning when they are reported by kind.
pub proof fn lemma_kinds_are_faithful(a: AdmitError, b: AdmitError, s: TransitionError, t: TransitionError)
    ensures
        a != b ==> a.spec_kind() != b.spec_kind(),
        s != t ==> s.spec_kind() != t.spec_kind(),
        !a.spec_kind().retryable(),
        !s.spec_kind().retryable(),
{
}

} // verus!
