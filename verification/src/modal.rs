//! The dialog in which the caster fetches match data from the league site.
use vstd::prelude::*;
use std::cmp::Ordering;

verus! {

/// Where the league-match dialog stands. The states are ordered as listed:
/// the dialog is shown in every state after `Closed`.
#[derive(Clone, Copy, Debug, PartialEq, Eq, Structural)]
pub enum ODCMatchModalState {
    Closed,
    Open,
    Loading,
    Success,
    Error,
}

/// The position of a state in the order of the states.
pub open spec fn modal_rank(s: ODCMatchModalState) -> int {
    match s {
        ODCMatchModalState::Closed => 0,
        ODCMatchModalState::Open => 1,
        ODCMatchModalState::Loading => 2,
        ODCMatchModalState::Success => 3,
        ODCMatchModalState::Error => 4,
    }
}

/// How two states compare in the order of the states.
pub open spec fn modal_order(a: ODCMatchModalState, b: ODCMatchModalState) -> Option<Ordering> {
    if modal_rank(a) < modal_rank(b) {
        Some(Ordering::Less)
    } else if modal_rank(a) == modal_rank(b) {
        Some(Ordering::Equal)
    } else {
        Some(Ordering::Greater)
    }
}

/// The states are ordered Closed < Open < Loading < Success < Error, every
/// state equals itself, and swapping two states swaps less and greater.
pub proof fn law_modal_order(a: ODCMatchModalState, b: ODCMatchModalState)
    ensures
        modal_order(a, b) == Some(Ordering::Equal) <==> a == b,
        modal_order(a, b) == Some(Ordering::Less) <==> modal_order(b, a) == Some(Ordering::Greater),
        modal_order(ODCMatchModalState::Closed, ODCMatchModalState::Open) == Some(Ordering::Less),
        modal_order(ODCMatchModalState::Open, ODCMatchModalState::Loading) == Some(Ordering::Less),
        modal_order(ODCMatchModalState::Loading, ODCMatchModalState::Success) == Some(Ordering::Less),
        modal_order(ODCMatchModalState::Success, ODCMatchModalState::Error) == Some(Ordering::Less),
        modal_order(a, b) is Some,
{
}

impl ODCMatchModalState {
    fn rank(&self) -> (r: u8)
        ensures
            r == modal_rank(*self),
    {
        match self {
            ODCMatchModalState::Closed => 0,
            ODCMatchModalState::Open => 1,
            ODCMatchModalState::Loading => 2,
            ODCMatchModalState::Success => 3,
            ODCMatchModalState::Error => 4,
        }
    }
}

impl PartialOrd for ODCMatchModalState {
    fn partial_cmp(&self, other: &Self) -> (r: Option<Ordering>) {
        let a = self.rank();
        let b = other.rank();
        if a < b {
            Some(Ordering::Less)
        } else if a == b {
            Some(Ordering::Equal)
        } else {
            Some(Ordering::Greater)
        }
    }
}

impl vstd::std_specs::cmp::PartialOrdSpecImpl for ODCMatchModalState {
    open spec fn obeys_partial_cmp_spec() -> bool {
        true
    }

    open spec fn partial_cmp_spec(&self, other: &Self) -> Option<Ordering> {
        modal_order(*self, *other)
    }
}

} // verus!
