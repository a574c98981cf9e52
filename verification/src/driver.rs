//! What the precipitation loop does when the lattice reaches stability.

use vstd::prelude::*;

verus! {

/// The next step once no achronon is eligible.
#[derive(Debug, PartialEq, Eq, Structural)]
pub enum StabilityDecision {
    /// Ask the model for new potentialities.
    QueryModel,
    /// Stop: the model may not be asked any more.
    BudgetSpent,
    /// Stop: there is no model to ask.
    NoModel,
}

/// At stability the loop asks the model while it has a key and queries left;
/// without a key it stops, and with the budget spent it stops too.
pub fn decide_at_stability(has_api_key: bool, queries_left: u32) -> (d: StabilityDecision)
    ensures
        d == if !has_api_key {
            StabilityDecision::NoModel
        } else if queries_left > 0 {
            StabilityDecision::QueryModel
        } else {
            StabilityDecision::BudgetSpent
        },
{
    if !has_api_key {
        StabilityDecision::NoModel
    } else if queries_left > 0 {
        StabilityDecision::QueryModel
    } else {
        StabilityDecision::BudgetSpent
    }
}

/// What the loop does with the model's reply.
#[derive(Debug, PartialEq, Eq, Structural)]
pub enum ReplyDecision {
    /// Stop: the query failed or proposed nothing.
    Stop,
    /// Take in the proposals and go on with this many queries left.
    Extend(u32),
}

/// A failed query or an empty reply stops the loop; a reply with proposals
/// is taken in and spends one query.
pub fn decide_after_reply(reply_ok: bool, proposed: usize, queries_left: u32) -> (d: ReplyDecision)
    requires
        queries_left > 0,
    ensures
        d == if !reply_ok || proposed == 0 {
            ReplyDecision::Stop
        } else {
            ReplyDecision::Extend((queries_left - 1) as u32)
        },
{
    if !reply_ok || proposed == 0 {
        ReplyDecision::Stop
    } else {
        ReplyDecision::Extend(queries_left - 1)
    }
}

} // verus!
