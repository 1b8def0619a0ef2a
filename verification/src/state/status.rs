use vstd::prelude::*;

verus! {

/// Possible states for a node to be in.
#[derive(Clone, Copy, Debug, PartialEq, Eq, Structural)]
pub enum ErStatus {
    /// node is active and accepting new delegations
    Active,
    /// node is active but not accepting new delegations, only serving existing ones
    Draining,
    /// node has been taken offline, e.g. for maintenance
    Offline,
}

impl ErStatus {
    /// The byte that stands for the status in stored bytes.
    pub open spec fn spec_tag(self) -> u8 {
        match self {
            ErStatus::Active => 0,
            ErStatus::Draining => 1,
            ErStatus::Offline => 2,
        }
    }

    /// The status that a byte stands for, if any.
    pub open spec fn spec_from_tag(tag: u8) -> Option<ErStatus> {
        if tag == 0 {
            Some(ErStatus::Active)
        } else if tag == 1 {
            Some(ErStatus::Draining)
        } else if tag == 2 {
            Some(ErStatus::Offline)
        } else {
            None
        }
    }

    /// The byte that stands for the status in stored bytes.
    #[verifier::when_used_as_spec(spec_tag)]
    pub fn tag(self) -> (t: u8)
        ensures
            t == self.spec_tag(),
    {
        match self {
            ErStatus::Active => 0,
            ErStatus::Draining => 1,
            ErStatus::Offline => 2,
        }
    }

    /// The status that a byte stands for, if any.
    pub fn from_tag(tag: u8) -> (res: Option<ErStatus>)
        ensures
            res == Self::spec_from_tag(tag),
    {
        if tag == 0 {
            Some(ErStatus::Active)
        } else if tag == 1 {
            Some(ErStatus::Draining)
        } else if tag == 2 {
            Some(ErStatus::Offline)
        } else {
            None
        }
    }
}

} // verus!
