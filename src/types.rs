use vstd::prelude::*;

verus! {

/// The identity that an operation is performed as.
#[derive(Debug, Clone, Copy, PartialEq, Eq, Structural)]
pub enum Origin {
    /// The privileged identity, allowed to slash and to settle disputes.
    Root,
    /// An ordinary account.
    Signed(u64),
}

impl Origin {
    pub fn signed(who: u64) -> (r: Origin)
        ensures
            r == Origin::Signed(who),
    {
        Origin::Signed(who)
    }

    pub fn root() -> (r: Origin)
        ensures
            r == Origin::Root,
    {
        Origin::Root
    }
}

/// Why an operation was rejected. A rejected operation changes nothing.
#[derive(Debug, Clone, Copy, PartialEq, Eq, Structural)]
pub enum Error {
    /// A privileged operation was attempted by an ordinary account, or an
    /// ordinary one by the privileged identity.
    BadOrigin,
    /// The currency ledger lacks the free or reserved funds asked for.
    InsufficientBalance,
    /// A balance would exceed the largest representable amount.
    Overflow,
    /// The reward is below the market's minimum.
    RewardTooLow,
    TitleTooLong,
    DescriptionTooLong,
    ProposalTooLong,
    CommentTooLong,
    ReasonTooLong,
    /// The poster already has as many active tasks as the market allows.
    TooManyActiveTasks,
    TaskNotFound,
    BidNotFound,
    CannotBidOnOwnTask,
    /// The task already has as many bidders as the market allows.
    TooManyBids,
    /// The caller is not the task's poster; for a dispute, neither its
    /// poster nor its worker.
    NotPoster,
    /// The caller is not the worker the task is assigned to.
    NotAssignee,
    /// The task is not in the status that the operation starts from.
    InvalidTaskStatus,
    /// A rating outside one to five stars.
    InvalidRating,
    SelfReview,
    /// The named winner of a dispute is neither its poster nor its worker.
    InvalidWinner,
}

} // verus!
