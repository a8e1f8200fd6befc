//! Account epochs and the table of recognised epoch-upgrade links.

use vstd::prelude::*;
use crate::hashes::{Link, PublicKey};

verus! {

/// The epoch an account chain has been upgraded to. Epochs only move
/// forward; an epoch block tags a chain with the next epoch.
#[derive(Clone, Copy, Debug, PartialEq, Eq, Hash, Structural)]
pub enum Epoch {
    Unspecified,
    Epoch0,
    Epoch1,
    Epoch2,
}

impl Epoch {
    /// Numeric rank used to compare epochs: Unspecified < Epoch0 < Epoch1 < Epoch2.
    pub open spec fn spec_rank(self) -> int {
        match self {
            Epoch::Unspecified => 0,
            Epoch::Epoch0 => 1,
            Epoch::Epoch1 => 2,
            Epoch::Epoch2 => 3,
        }
    }

    pub fn rank(&self) -> (r: u8)
        ensures
            r as int == self.spec_rank(),
    {
        match self {
            Epoch::Unspecified => 0,
            Epoch::Epoch0 => 1,
            Epoch::Epoch1 => 2,
            Epoch::Epoch2 => 3,
        }
    }

    /// The later of two epochs.
    pub fn max(a: Epoch, b: Epoch) -> (r: Epoch)
        ensures
            r.spec_rank() == if a.spec_rank() >= b.spec_rank() { a.spec_rank() } else { b.spec_rank() },
            r == a || r == b,
    {
        if a.rank() >= b.rank() { a } else { b }
    }

    /// The epoch that follows this one, if any.
    pub fn successor(&self) -> (r: Option<Epoch>)
        ensures
            *self == Epoch::Unspecified ==> r == Some(Epoch::Epoch0),
            *self == Epoch::Epoch0 ==> r == Some(Epoch::Epoch1),
            *self == Epoch::Epoch1 ==> r == Some(Epoch::Epoch2),
            *self == Epoch::Epoch2 ==> r is None,
    {
        match self {
            Epoch::Unspecified => Some(Epoch::Epoch0),
            Epoch::Epoch0 => Some(Epoch::Epoch1),
            Epoch::Epoch1 => Some(Epoch::Epoch2),
            Epoch::Epoch2 => None,
        }
    }
}

/// The active epoch table: which link values mark an epoch upgrade, and the
/// key allowed to sign epoch blocks on behalf of any account.
#[derive(Clone, Copy, Debug, PartialEq, Eq, Structural)]
pub struct Epochs {
    pub epoch_1_link: Link,
    pub epoch_2_link: Link,
    pub signer: PublicKey,
}

impl Epochs {
    pub open spec fn spec_epoch_of_link(self, link: Link) -> Option<Epoch> {
        if link == self.epoch_1_link {
            Some(Epoch::Epoch1)
        } else if link == self.epoch_2_link {
            Some(Epoch::Epoch2)
        } else {
            None
        }
    }

    pub open spec fn spec_is_epoch_link(self, link: Link) -> bool {
        self.spec_epoch_of_link(link) is Some
    }

    /// The epoch that `link` upgrades to, or `None` if `link` is not an
    /// epoch marker.
    pub fn epoch_of_link(&self, link: &Link) -> (r: Option<Epoch>)
        ensures
            r == self.spec_epoch_of_link(*link),
    {
        if *link == self.epoch_1_link {
            Some(Epoch::Epoch1)
        } else if *link == self.epoch_2_link {
            Some(Epoch::Epoch2)
        } else {
            None
        }
    }

    pub fn is_epoch_link(&self, link: &Link) -> (r: bool)
        ensures
            r == self.spec_is_epoch_link(*link),
    {
        self.epoch_of_link(link).is_some()
    }

    /// The link that upgrades to `epoch`, for the two upgradable epochs.
    pub fn link_of_epoch(&self, epoch: Epoch) -> (r: Option<Link>)
        ensures
            epoch == Epoch::Epoch1 ==> r == Some(self.epoch_1_link),
            epoch == Epoch::Epoch2 ==> r == Some(self.epoch_2_link),
            epoch == Epoch::Unspecified || epoch == Epoch::Epoch0 ==> r is None,
    {
        match epoch {
            Epoch::Epoch1 => Some(self.epoch_1_link),
            Epoch::Epoch2 => Some(self.epoch_2_link),
            _ => None,
        }
    }
}

} // verus!
