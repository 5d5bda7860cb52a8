//! Status state machine shared by the marketplace entities.

use vstd::prelude::*;

verus! {

/// Status of a listing, offer, collection offer, auction, Dutch auction or bundle.
#[derive(Clone, Copy, Debug, PartialEq, Eq, Structural)]
pub enum Status {
    Active,
    Sold,
    Accepted,
    Cancelled,
    ReserveNotMet,
    Ended,
}

/// Every status but `Active` is terminal: nothing moves an entity out of it.
pub open spec fn is_terminal(s: Status) -> bool {
    s != Status::Active
}

/// The status after a transition event that asks for `target`: the transition
/// happens only from `Active`; a terminal status is kept.
pub open spec fn next_status(current: Status, target: Status) -> Status {
    if current == Status::Active {
        target
    } else {
        current
    }
}

/// The status after a sequence of transition events, applied in order.
pub open spec fn status_after(current: Status, targets: Seq<Status>) -> Status
    decreases targets.len(),
{
    if targets.len() == 0 {
        current
    } else {
        status_after(next_status(current, targets[0]), targets.drop_first())
    }
}

/// Applies one transition event to a status.
pub fn transition(current: Status, target: Status) -> (r: Status)
    ensures
        r == next_status(current, target),
        is_terminal(current) ==> r == current,
{
    match current {
        Status::Active => target,
        _ => current,
    }
}

/// Whether the status is terminal.
pub fn status_is_terminal(s: Status) -> (r: bool)
    ensures
        r == is_terminal(s),
{
    match s {
        Status::Active => false,
        _ => true,
    }
}

/// The name the store and the read API use for a status.
pub fn status_name(s: Status) -> (r: &'static str)
    ensures
        r@ == status_text(s),
{
    match s {
        Status::Active => "Active",
        Status::Sold => "Sold",
        Status::Accepted => "Accepted",
        Status::Cancelled => "Cancelled",
        Status::ReserveNotMet => "ReserveNotMet",
        Status::Ended => "Ended",
    }
}

/// The name of each status.
pub open spec fn status_text(s: Status) -> Seq<char> {
    match s {
        Status::Active => "Active"@,
        Status::Sold => "Sold"@,
        Status::Accepted => "Accepted"@,
        Status::Cancelled => "Cancelled"@,
        Status::ReserveNotMet => "ReserveNotMet"@,
        Status::Ended => "Ended"@,
    }
}

/// Status monotonicity: once an entity's status is terminal, no sequence of
/// transition events changes it.
pub proof fn lemma_terminal_is_final(current: Status, targets: Seq<Status>)
    requires
        is_terminal(current),
    ensures
        status_after(current, targets) == current,
    decreases targets.len(),
{
    if targets.len() > 0 {
        lemma_terminal_is_final(current, targets.drop_first());
    }
}

/// Status monotonicity along the way: every status reached by a prefix of the
/// events, once terminal, is the status after all of them.
pub proof fn lemma_status_monotone(current: Status, targets: Seq<Status>, n: int)
    requires
        0 <= n <= targets.len(),
        is_terminal(status_after(current, targets.take(n))),
    ensures
        status_after(current, targets) == status_after(current, targets.take(n)),
    decreases n,
{
    if n > 0 {
        let first = next_status(current, targets[0]);
        assert(targets.take(n).drop_first() =~= targets.drop_first().take(n - 1));
        lemma_status_monotone(first, targets.drop_first(), n - 1);
    } else {
        assert(targets.take(0) =~= Seq::<Status>::empty());
        lemma_terminal_is_final(current, targets);
    }
}

} // verus!
