use std::collections::HashMap;
use vstd::prelude::*;

use crate::balances::{
    Balances, paid_from_reserve, released_to, reserved_from, transfer_outcome, unchanged,
};
use crate::keys::{pack_pair, pair_key, lemma_pair_key_injective};
use crate::reputation::{ReputationManager, completed, lost, outcome, posted, won};
use crate::types::{Error, Origin};

verus! {

broadcast use vstd::std_specs::hash::group_hash_axioms;

/// Deployment-time settings of the market.
#[derive(Debug, Clone, Copy, PartialEq, Eq, Structural)]
pub struct MarketConfig {
    pub max_title_length: u32,
    pub max_description_length: u32,
    pub max_proposal_length: u32,
    pub max_bids_per_task: u32,
    pub min_task_reward: u64,
    pub max_active_tasks_per_account: u32,
}

/// Where a task stands in its lifecycle.
#[derive(Debug, Clone, Copy, PartialEq, Eq, Structural)]
pub enum TaskStatus {
    Open,
    Assigned,
    Submitted,
    Approved,
    Disputed,
    Cancelled,
    Resolved,
}

/// A task still holds its poster's escrow and counts against the poster's
/// limit of active tasks.
pub open spec fn is_active(s: TaskStatus) -> bool {
    s == TaskStatus::Open || s == TaskStatus::Assigned || s == TaskStatus::Submitted || s
        == TaskStatus::Disputed
}

pub open spec fn with_status(t: Task, s: TaskStatus) -> Task {
    Task { status: s, ..t }
}

/// Every account's reserve covers the escrow of the active tasks it posted.
pub open spec fn escrow_backed(market: &TaskMarket, currency: &Balances) -> bool {
    forall|who: u64| #[trigger] currency.account(who).reserved >= market.escrow(who)
}

/// A posted job.
#[derive(Debug)]
pub struct Task {
    pub id: u64,
    pub poster: u64,
    pub title: Vec<u8>,
    pub description: Vec<u8>,
    pub reward: u64,
    /// Informational only: no transition looks at it.
    pub deadline: u64,
    pub status: TaskStatus,
    pub assigned_to: Option<u64>,
    pub submission: Option<Vec<u8>>,
}

/// An offer to do a task.
#[derive(Debug)]
pub struct Bid {
    pub bidder: u64,
    pub amount: u64,
    pub proposal: Vec<u8>,
}

/// Who raised a dispute over a task, and why.
#[derive(Debug)]
pub struct Dispute {
    pub raised_by: u64,
    pub reason: Vec<u8>,
}

/// The task market: tasks numbered from zero in the order they were posted,
/// the bids on them (one per bidder and task), and the disputes raised.
pub struct TaskMarket {
    config: MarketConfig,
    tasks: HashMap<u64, Task>,
    task_count: u64,
    bids: HashMap<u128, Bid>,
    bid_counts: HashMap<u64, u32>,
    disputes: HashMap<u64, Dispute>,
}

impl TaskMarket {
    pub closed spec fn config(&self) -> MarketConfig {
        self.config
    }

    pub closed spec fn posted_count(&self) -> u64 {
        self.task_count
    }

    pub closed spec fn task(&self, id: u64) -> Option<Task> {
        if self.tasks@.contains_key(id) {
            Some(self.tasks@[id])
        } else {
            None
        }
    }

    pub closed spec fn bid(&self, task_id: u64, bidder: u64) -> Option<Bid> {
        let k = pair_key(task_id, bidder);
        if self.bids@.contains_key(k) {
            Some(self.bids@[k])
        } else {
            None
        }
    }

    /// Number of distinct bidders on a task.
    pub closed spec fn bidders_on(&self, task_id: u64) -> u32 {
        if self.bid_counts@.contains_key(task_id) {
            self.bid_counts@[task_id]
        } else {
            0
        }
    }

    pub closed spec fn dispute(&self, task_id: u64) -> Option<Dispute> {
        if self.disputes@.contains_key(task_id) {
            Some(self.disputes@[task_id])
        } else {
            None
        }
    }

    /// The reward task `id` holds in escrow for `who`: its reward while it is
    /// active and posted by `who`, else nothing.
    pub open spec fn escrow_of_task(&self, who: u64, id: u64) -> int {
        if self.task(id) is Some && self.task(id)->0.poster == who && is_active(
            self.task(id)->0.status,
        ) {
            self.task(id)->0.reward as int
        } else {
            0
        }
    }

    /// Escrow held for `who` by the first `n` ids.
    pub open spec fn escrow_among(&self, who: u64, n: nat) -> int
        decreases n,
    {
        if n == 0 {
            0
        } else {
            self.escrow_among(who, (n - 1) as nat) + self.escrow_of_task(who, (n - 1) as u64)
        }
    }

    /// Total reward held in escrow for the active tasks that `who` posted.
    pub open spec fn escrow(&self, who: u64) -> int {
        self.escrow_among(who, self.posted_count() as nat)
    }

    /// Tasks among the first `n` ids posted by `who` and still active.
    pub open spec fn active_among(&self, who: u64, n: nat) -> nat
        decreases n,
    {
        if n == 0 {
            0
        } else {
            let id = (n - 1) as u64;
            self.active_among(who, (n - 1) as nat) + if self.task(id) is Some && self.task(
                id,
            )->0.poster == who && is_active(self.task(id)->0.status) {
                1nat
            } else {
                0nat
            }
        }
    }

    /// Tasks posted by `who` that are still active.
    pub open spec fn active_tasks(&self, who: u64) -> nat {
        self.active_among(who, self.posted_count() as nat)
    }

    pub closed spec fn wf(&self) -> bool {
        &&& forall|id: u64| #[trigger] self.tasks@.contains_key(id) <==> id < self.task_count
        &&& forall|id: u64|
            #[trigger] self.tasks@.contains_key(id) ==> {
                let t = self.tasks@[id];
                &&& t.id == id
                &&& (!(t.status == TaskStatus::Open || t.status == TaskStatus::Cancelled)
                    ==> t.assigned_to is Some)
            }
    }

    /// Every task but `id` is as it was, and no task was added.
    pub open spec fn tasks_kept_except(&self, other: &TaskMarket, id: u64) -> bool {
        &&& other.posted_count() == self.posted_count()
        &&& forall|i: u64| i != id ==> #[trigger] other.task(i) == self.task(i)
    }

    pub open spec fn bids_kept(&self, other: &TaskMarket) -> bool {
        &&& forall|t: u64, b: u64| #[trigger] other.bid(t, b) == self.bid(t, b)
        &&& forall|t: u64| #[trigger] other.bidders_on(t) == self.bidders_on(t)
    }

    pub open spec fn disputes_kept(&self, other: &TaskMarket) -> bool {
        forall|t: u64| #[trigger] other.dispute(t) == self.dispute(t)
    }

    /// `other` is `self` with task `id` replaced by `t`, and nothing else
    /// changed.
    pub open spec fn only_task_changed(&self, other: &TaskMarket, id: u64, t: Task) -> bool {
        &&& other.config() == self.config()
        &&& other.task(id) == Some(t)
        &&& self.tasks_kept_except(other, id)
        &&& self.bids_kept(other)
        &&& self.disputes_kept(other)
    }

    /// Why posting would be refused, checked in this order.
    pub open spec fn post_error(
        &self,
        currency: &Balances,
        origin: Origin,
        title_len: nat,
        description_len: nat,
        reward: u64,
    ) -> Option<Error> {
        match origin {
            Origin::Root => Some(Error::BadOrigin),
            Origin::Signed(who) => {
                if reward < self.config().min_task_reward {
                    Some(Error::RewardTooLow)
                } else if title_len > self.config().max_title_length {
                    Some(Error::TitleTooLong)
                } else if description_len > self.config().max_description_length {
                    Some(Error::DescriptionTooLong)
                } else if self.active_tasks(who) >= self.config().max_active_tasks_per_account {
                    Some(Error::TooManyActiveTasks)
                } else if self.posted_count() == u64::MAX {
                    Some(Error::Overflow)
                } else if reward > currency.account(who).free {
                    Some(Error::InsufficientBalance)
                } else {
                    None
                }
            },
        }
    }

    /// Why a bid would be refused, checked in this order.
    pub open spec fn bid_error(&self, origin: Origin, task_id: u64, proposal_len: nat) -> Option<
        Error,
    > {
        match origin {
            Origin::Root => Some(Error::BadOrigin),
            Origin::Signed(who) => {
                if self.task(task_id) is None {
                    Some(Error::TaskNotFound)
                } else if self.task(task_id)->0.status != TaskStatus::Open {
                    Some(Error::InvalidTaskStatus)
                } else if self.task(task_id)->0.poster == who {
                    Some(Error::CannotBidOnOwnTask)
                } else if proposal_len > self.config().max_proposal_length {
                    Some(Error::ProposalTooLong)
                } else if self.bid(task_id, who) is None && self.bidders_on(task_id)
                    >= self.config().max_bids_per_task {
                    Some(Error::TooManyBids)
                } else {
                    None
                }
            },
        }
    }

    /// Why assigning would be refused, checked in this order.
    pub open spec fn assign_error(&self, origin: Origin, task_id: u64, bidder: u64) -> Option<
        Error,
    > {
        match origin {
            Origin::Root => Some(Error::BadOrigin),
            Origin::Signed(who) => {
                if self.task(task_id) is None {
                    Some(Error::TaskNotFound)
                } else if self.task(task_id)->0.poster != who {
                    Some(Error::NotPoster)
                } else if self.task(task_id)->0.status != TaskStatus::Open {
                    Some(Error::InvalidTaskStatus)
                } else if self.bid(task_id, bidder) is None {
                    Some(Error::BidNotFound)
                } else {
                    None
                }
            },
        }
    }

    /// Why a submission would be refused, checked in this order.
    pub open spec fn submit_error(&self, origin: Origin, task_id: u64) -> Option<Error> {
        match origin {
            Origin::Root => Some(Error::BadOrigin),
            Origin::Signed(who) => {
                if self.task(task_id) is None {
                    Some(Error::TaskNotFound)
                } else if self.task(task_id)->0.assigned_to != Some(who) {
                    Some(Error::NotAssignee)
                } else if self.task(task_id)->0.status != TaskStatus::Assigned {
                    Some(Error::InvalidTaskStatus)
                } else {
                    None
                }
            },
        }
    }

    /// Why an approval would be refused, checked in this order; the last
    /// check is the payment to the worker.
    pub open spec fn approve_error(&self, currency: &Balances, origin: Origin, task_id: u64) -> Option<
        Error,
    > {
        match origin {
            Origin::Root => Some(Error::BadOrigin),
            Origin::Signed(who) => {
                if self.task(task_id) is None {
                    Some(Error::TaskNotFound)
                } else if self.task(task_id)->0.poster != who {
                    Some(Error::NotPoster)
                } else if self.task(task_id)->0.status != TaskStatus::Submitted {
                    Some(Error::InvalidTaskStatus)
                } else {
                    let t = self.task(task_id)->0;
                    let worker = t.assigned_to->0;
                    match transfer_outcome(
                        currency.account(who),
                        currency.account(worker),
                        who,
                        worker,
                        t.reward,
                    ) {
                        Err(e) => Some(e),
                        Ok(_) => None,
                    }
                }
            },
        }
    }

    /// Why raising a dispute would be refused, checked in this order.
    pub open spec fn dispute_error(&self, origin: Origin, task_id: u64, reason_len: nat) -> Option<
        Error,
    > {
        match origin {
            Origin::Root => Some(Error::BadOrigin),
            Origin::Signed(who) => {
                if self.task(task_id) is None {
                    Some(Error::TaskNotFound)
                } else if self.task(task_id)->0.poster != who && self.task(task_id)->0.assigned_to
                    != Some(who) {
                    Some(Error::NotPoster)
                } else if self.task(task_id)->0.status != TaskStatus::Submitted {
                    Some(Error::InvalidTaskStatus)
                } else if reason_len > self.config().max_description_length {
                    Some(Error::ReasonTooLong)
                } else {
                    None
                }
            },
        }
    }

    /// Why settling a dispute would be refused, checked in this order; the
    /// last check is the payout to the winner.
    pub open spec fn resolve_error(
        &self,
        currency: &Balances,
        origin: Origin,
        task_id: u64,
        winner: u64,
    ) -> Option<Error> {
        if origin != Origin::Root {
            Some(Error::BadOrigin)
        } else if self.task(task_id) is None {
            Some(Error::TaskNotFound)
        } else if self.task(task_id)->0.status != TaskStatus::Disputed {
            Some(Error::InvalidTaskStatus)
        } else {
            let t = self.task(task_id)->0;
            let worker = t.assigned_to->0;
            if winner != t.poster && winner != worker {
                Some(Error::InvalidWinner)
            } else if winner == worker {
                match transfer_outcome(
                    currency.account(t.poster),
                    currency.account(worker),
                    t.poster,
                    worker,
                    t.reward,
                ) {
                    Err(e) => Some(e),
                    Ok(_) => None,
                }
            } else if t.reward > currency.account(t.poster).reserved {
                Some(Error::InsufficientBalance)
            } else {
                None
            }
        }
    }

    /// Why cancelling would be refused, checked in this order; the last
    /// check is the refund of the escrow.
    pub open spec fn cancel_error(&self, currency: &Balances, origin: Origin, task_id: u64) -> Option<
        Error,
    > {
        match origin {
            Origin::Root => Some(Error::BadOrigin),
            Origin::Signed(who) => {
                if self.task(task_id) is None {
                    Some(Error::TaskNotFound)
                } else if self.task(task_id)->0.poster != who {
                    Some(Error::NotPoster)
                } else if self.task(task_id)->0.status != TaskStatus::Open {
                    Some(Error::InvalidTaskStatus)
                } else if self.task(task_id)->0.reward > currency.account(who).reserved {
                    Some(Error::InsufficientBalance)
                } else {
                    None
                }
            },
        }
    }

    pub fn new(config: MarketConfig) -> (r: TaskMarket)
        ensures
            r.wf(),
            r.config() == config,
            r.posted_count() == 0,
            forall|id: u64| #[trigger] r.task(id).is_none(),
            forall|t: u64, b: u64| #[trigger] r.bid(t, b).is_none(),
            forall|t: u64| #[trigger] r.bidders_on(t) == 0,
            forall|t: u64| #[trigger] r.dispute(t).is_none(),
    {
        TaskMarket {
            config,
            tasks: HashMap::new(),
            task_count: 0,
            bids: HashMap::new(),
            bid_counts: HashMap::new(),
            disputes: HashMap::new(),
        }
    }

    pub fn get_config(&self) -> (r: MarketConfig)
        ensures
            r == self.config(),
    {
        self.config
    }

    /// Number of tasks ever posted; the next task gets this id.
    pub fn task_count(&self) -> (r: u64)
        ensures
            r == self.posted_count(),
    {
        self.task_count
    }

    pub fn tasks(&self, id: u64) -> (r: Option<&Task>)
        ensures
            r == match self.task(id) {
                Some(t) => Some(&t),
                None => None::<&Task>,
            },
    {
        self.tasks.get(&id)
    }

    pub fn task_bids(&self, task_id: u64, bidder: u64) -> (r: Option<&Bid>)
        ensures
            r == match self.bid(task_id, bidder) {
                Some(b) => Some(&b),
                None => None::<&Bid>,
            },
    {
        self.bids.get(&pack_pair(task_id, bidder))
    }

    pub fn bid_count(&self, task_id: u64) -> (r: u32)
        ensures
            r == self.bidders_on(task_id),
    {
        match self.bid_counts.get(&task_id) {
            Some(n) => *n,
            None => 0,
        }
    }

    pub fn disputes(&self, task_id: u64) -> (r: Option<&Dispute>)
        ensures
            r == match self.dispute(task_id) {
                Some(d) => Some(&d),
                None => None::<&Dispute>,
            },
    {
        self.disputes.get(&task_id)
    }

    /// Number of tasks posted by `who` that are still active.
    pub fn active_task_count(&self, who: u64) -> (r: u64)
        ensures
            r == self.active_tasks(who),
    {
        let mut n: u64 = 0;
        let mut i: u64 = 0;
        while i < self.task_count
            invariant
                i <= self.task_count,
                n <= i,
                n == self.active_among(who, i as nat),
            decreases self.task_count - i,
        {
            match self.tasks.get(&i) {
                Some(t) => {
                    if t.poster == who && (t.status == TaskStatus::Open || t.status
                        == TaskStatus::Assigned || t.status == TaskStatus::Submitted || t.status
                        == TaskStatus::Disputed) {
                        n = n + 1;
                    }
                },
                None => {},
            }
            i = i + 1;
        }
        n
    }

    /// Posts a task with `reward` held in escrow from the caller's free
    /// balance, and counts it in the caller's reputation record. The new
    /// task gets the next id and starts Open.
    pub fn post_task<R: ReputationManager>(
        &mut self,
        currency: &mut Balances,
        reputation: &mut R,
        origin: Origin,
        title: Vec<u8>,
        description: Vec<u8>,
        reward: u64,
        deadline: u64,
    ) -> (r: Result<u64, Error>)
        requires
            old(self).wf(),
            old(currency).wf(),
            old(reputation).inv(),
        ensures
            final(self).wf(),
            final(currency).wf(),
            escrow_backed(old(self), old(currency)) ==> escrow_backed(final(self), final(currency)),
            final(reputation).inv(),
            r == match old(self).post_error(
                old(currency),
                origin,
                title@.len(),
                description@.len(),
                reward,
            ) {
                Some(e) => Err(e),
                None => Ok(old(self).posted_count()),
            },
            r is Err ==> *final(self) == *old(self) && *final(reputation) == *old(reputation)
                && unchanged(old(currency), final(currency)),
            r is Ok ==> ({
                let poster = origin->Signed_0;
                let id = old(self).posted_count();
                &&& final(self).config() == old(self).config()
                &&& final(self).posted_count() == id + 1
                &&& final(self).task(id) == Some(
                    Task {
                        id,
                        poster,
                        title,
                        description,
                        reward,
                        deadline,
                        status: TaskStatus::Open,
                        assigned_to: None,
                        submission: None,
                    },
                )
                &&& forall|i: u64| i != id ==> #[trigger] final(self).task(i) == old(self).task(i)
                &&& old(self).bids_kept(final(self))
                &&& old(self).disputes_kept(final(self))
                &&& reserved_from(old(currency), final(currency), poster, reward)
                &&& forall|w: u64|
                    #[trigger] final(self).escrow(w) == old(self).escrow(w) + if w == poster {
                        reward as int
                    } else {
                        0
                    }
                &&& final(reputation).record_of(poster) == posted(old(reputation).record_of(poster), reward)
                &&& forall|o: u64|
                    o != poster ==> #[trigger] final(reputation).record_of(o) == old(
                        reputation,
                    ).record_of(o)
            }),
    {
        let poster = match origin {
            Origin::Signed(who) => who,
            Origin::Root => return Err(Error::BadOrigin),
        };
        if reward < self.config.min_task_reward {
            return Err(Error::RewardTooLow);
        }
        if title.len() > self.config.max_title_length as usize {
            return Err(Error::TitleTooLong);
        }
        if description.len() > self.config.max_description_length as usize {
            return Err(Error::DescriptionTooLong);
        }
        if self.active_task_count(poster) >= self.config.max_active_tasks_per_account as u64 {
            return Err(Error::TooManyActiveTasks);
        }
        if self.task_count == u64::MAX {
            return Err(Error::Overflow);
        }
        match currency.reserve(poster, reward) {
            Ok(()) => {},
            Err(e) => return Err(e),
        }
        let id = self.task_count;
        self.tasks.insert(
            id,
            Task {
                id,
                poster,
                title,
                description,
                reward,
                deadline,
                status: TaskStatus::Open,
                assigned_to: None,
                submission: None,
            },
        );
        self.task_count = id + 1;
        assert forall|i: u64| #[trigger] self.tasks@.contains_key(i) <==> i < self.task_count by {
            assert(old(self).tasks@.contains_key(i) <==> i < old(self).task_count);
        }
        assert forall|i: u64| i != id implies #[trigger] self.task(i) == old(self).task(i) by {}
        assert forall|w: u64|
            #[trigger] self.escrow(w) == old(self).escrow(w) + if w == poster {
                reward as int
            } else {
                0
            } by {
            lemma_escrow_among_one_changed(old(self), self, w, id, id as nat);
            assert(self.escrow_among(w, (id + 1) as nat) == self.escrow_among(w, id as nat)
                + self.escrow_of_task(w, id));
        }
        reputation.on_task_posted(poster, reward);
        proof {
            assert forall|w: u64| escrow_backed(old(self), old(currency)) implies #[trigger] currency.account(
                w,
            ).reserved >= self.escrow(w) by {
                old(currency).lemma_account_fits(w);
            }
        }
        Ok(id)
    }

    /// Offers to do an Open task for `amount`. A second bid by the same
    /// bidder replaces the first and does not count again against the limit.
    pub fn bid_on_task(&mut self, origin: Origin, task_id: u64, amount: u64, proposal: Vec<u8>) -> (r:
        Result<(), Error>)
        requires
            old(self).wf(),
        ensures
            final(self).wf(),
            r == outcome(old(self).bid_error(origin, task_id, proposal@.len())),
            r is Err ==> *final(self) == *old(self),
            r is Ok ==> ({
                let bidder = origin->Signed_0;
                &&& final(self).config() == old(self).config()
                &&& old(self).tasks_kept_except(final(self), task_id)
                &&& final(self).task(task_id) == old(self).task(task_id)
                &&& forall|w: u64| #[trigger] final(self).escrow(w) == old(self).escrow(w)
                &&& old(self).disputes_kept(final(self))
                &&& final(self).bid(task_id, bidder) == Some(Bid { bidder, amount, proposal })
                &&& forall|t: u64, b: u64|
                    !(t == task_id && b == bidder) ==> #[trigger] final(self).bid(t, b)
                        == old(self).bid(t, b)
                &&& final(self).bidders_on(task_id) == old(self).bidders_on(task_id) + if old(
                    self,
                ).bid(task_id, bidder) is None {
                    1int
                } else {
                    0int
                }
                &&& forall|t: u64|
                    t != task_id ==> #[trigger] final(self).bidders_on(t) == old(self).bidders_on(t)
            }),
    {
        let bidder = match origin {
            Origin::Signed(who) => who,
            Origin::Root => return Err(Error::BadOrigin),
        };
        let t = match self.tasks.get(&task_id) {
            Some(t) => t,
            None => return Err(Error::TaskNotFound),
        };
        if t.status != TaskStatus::Open {
            return Err(Error::InvalidTaskStatus);
        }
        if t.poster == bidder {
            return Err(Error::CannotBidOnOwnTask);
        }
        if proposal.len() > self.config.max_proposal_length as usize {
            return Err(Error::ProposalTooLong);
        }
        let key = pack_pair(task_id, bidder);
        let is_new = !self.bids.contains_key(&key);
        let count = self.bid_count(task_id);
        if is_new && count >= self.config.max_bids_per_task {
            return Err(Error::TooManyBids);
        }
        self.bids.insert(key, Bid { bidder, amount, proposal });
        if is_new {
            self.bid_counts.insert(task_id, count + 1);
        }
        assert forall|t: u64, b: u64|
            !(t == task_id && b == bidder) implies #[trigger] self.bid(t, b) == old(self).bid(
            t,
            b,
        ) by {
            lemma_pair_key_injective(t, b, task_id, bidder);
        }
        assert(forall|i: u64| #[trigger] self.task(i) == old(self).task(i));
        proof {
            lemma_escrow_one_changed(old(self), self, task_id);
        }
        Ok(())
    }

    /// The poster hands an Open task to one of its bidders.
    pub fn assign_task(&mut self, origin: Origin, task_id: u64, bidder: u64) -> (r: Result<
        (),
        Error,
    >)
        requires
            old(self).wf(),
        ensures
            final(self).wf(),
            r == outcome(old(self).assign_error(origin, task_id, bidder)),
            r is Err ==> *final(self) == *old(self),
            r is Ok ==> old(self).only_task_changed(
                final(self),
                task_id,
                (Task {
                    status: TaskStatus::Assigned,
                    assigned_to: Some(bidder),
                    ..old(self).task(task_id)->0
                }),
            ),
            r is Ok ==> forall|w: u64| #[trigger] final(self).escrow(w) == old(self).escrow(w),
    {
        let who = match origin {
            Origin::Signed(who) => who,
            Origin::Root => return Err(Error::BadOrigin),
        };
        let t = match self.tasks.get(&task_id) {
            Some(t) => t,
            None => return Err(Error::TaskNotFound),
        };
        if t.poster != who {
            return Err(Error::NotPoster);
        }
        if t.status != TaskStatus::Open {
            return Err(Error::InvalidTaskStatus);
        }
        if !self.bids.contains_key(&pack_pair(task_id, bidder)) {
            return Err(Error::BidNotFound);
        }
        self.transition(task_id, TaskStatus::Assigned, Some(bidder), None);
        Ok(())
    }

    /// The assigned worker hands in `proof` of the work.
    pub fn submit_work(&mut self, origin: Origin, task_id: u64, proof: Vec<u8>) -> (r: Result<
        (),
        Error,
    >)
        requires
            old(self).wf(),
        ensures
            final(self).wf(),
            r == outcome(old(self).submit_error(origin, task_id)),
            r is Err ==> *final(self) == *old(self),
            r is Ok ==> old(self).only_task_changed(
                final(self),
                task_id,
                (Task {
                    status: TaskStatus::Submitted,
                    submission: Some(proof),
                    ..old(self).task(task_id)->0
                }),
            ),
            r is Ok ==> forall|w: u64| #[trigger] final(self).escrow(w) == old(self).escrow(w),
    {
        let who = match origin {
            Origin::Signed(who) => who,
            Origin::Root => return Err(Error::BadOrigin),
        };
        let t = match self.tasks.get(&task_id) {
            Some(t) => t,
            None => return Err(Error::TaskNotFound),
        };
        if t.assigned_to != Some(who) {
            return Err(Error::NotAssignee);
        }
        if t.status != TaskStatus::Assigned {
            return Err(Error::InvalidTaskStatus);
        }
        self.transition(task_id, TaskStatus::Submitted, None, Some(proof));
        Ok(())
    }

    /// The poster accepts the submitted work: the whole reward leaves the
    /// poster's reserve for the worker's free balance, and the worker's
    /// record counts one more completed task.
    pub fn approve_work<R: ReputationManager>(
        &mut self,
        currency: &mut Balances,
        reputation: &mut R,
        origin: Origin,
        task_id: u64,
    ) -> (r: Result<(), Error>)
        requires
            old(self).wf(),
            old(currency).wf(),
            old(reputation).inv(),
        ensures
            final(self).wf(),
            final(currency).wf(),
            escrow_backed(old(self), old(currency)) ==> escrow_backed(final(self), final(currency)),
            final(reputation).inv(),
            r == outcome(old(self).approve_error(old(currency), origin, task_id)),
            r is Err ==> *final(self) == *old(self) && *final(reputation) == *old(reputation)
                && unchanged(old(currency), final(currency)),
            r is Ok ==> ({
                let t = old(self).task(task_id)->0;
                let worker = t.assigned_to->0;
                &&& old(self).only_task_changed(
                    final(self),
                    task_id,
                    with_status(t, TaskStatus::Approved),
                )
                &&& forall|w: u64|
                    #[trigger] final(self).escrow(w) == old(self).escrow(w) - if w == t.poster {
                        t.reward as int
                    } else {
                        0
                    }
                &&& paid_from_reserve(old(currency), final(currency), t.poster, worker, t.reward)
                &&& final(reputation).record_of(worker) == completed(
                    old(reputation).record_of(worker),
                    t.reward,
                )
                &&& forall|o: u64|
                    o != worker ==> #[trigger] final(reputation).record_of(o) == old(
                        reputation,
                    ).record_of(o)
            }),
    {
        let who = match origin {
            Origin::Signed(who) => who,
            Origin::Root => return Err(Error::BadOrigin),
        };
        let t = match self.tasks.get(&task_id) {
            Some(t) => t,
            None => return Err(Error::TaskNotFound),
        };
        if t.poster != who {
            return Err(Error::NotPoster);
        }
        if t.status != TaskStatus::Submitted {
            return Err(Error::InvalidTaskStatus);
        }
        let worker = t.assigned_to.unwrap();
        let reward = t.reward;
        match currency.transfer_from_reserved(who, worker, reward) {
            Ok(()) => {},
            Err(e) => return Err(e),
        }
        self.transition(task_id, TaskStatus::Approved, None, None);
        reputation.on_task_completed(worker, reward);
        proof {
            assert forall|w: u64| escrow_backed(old(self), old(currency)) implies #[trigger] currency.account(
                w,
            ).reserved >= self.escrow(w) by {
                old(currency).lemma_account_fits(w);
            }
        }
        Ok(())
    }

    /// The poster or the worker contests submitted work, giving a reason.
    pub fn dispute_task(&mut self, origin: Origin, task_id: u64, reason: Vec<u8>) -> (r: Result<
        (),
        Error,
    >)
        requires
            old(self).wf(),
        ensures
            final(self).wf(),
            r == outcome(old(self).dispute_error(origin, task_id, reason@.len())),
            r is Err ==> *final(self) == *old(self),
            r is Ok ==> ({
                let raised_by = origin->Signed_0;
                &&& final(self).config() == old(self).config()
                &&& final(self).task(task_id) == Some(
                    with_status(old(self).task(task_id)->0, TaskStatus::Disputed),
                )
                &&& old(self).tasks_kept_except(final(self), task_id)
                &&& forall|w: u64| #[trigger] final(self).escrow(w) == old(self).escrow(w)
                &&& old(self).bids_kept(final(self))
                &&& final(self).dispute(task_id) == Some(Dispute { raised_by, reason })
                &&& forall|t: u64|
                    t != task_id ==> #[trigger] final(self).dispute(t) == old(self).dispute(t)
            }),
    {
        let who = match origin {
            Origin::Signed(who) => who,
            Origin::Root => return Err(Error::BadOrigin),
        };
        let t = match self.tasks.get(&task_id) {
            Some(t) => t,
            None => return Err(Error::TaskNotFound),
        };
        if t.poster != who && t.assigned_to != Some(who) {
            return Err(Error::NotPoster);
        }
        if t.status != TaskStatus::Submitted {
            return Err(Error::InvalidTaskStatus);
        }
        if reason.len() > self.config.max_description_length as usize {
            return Err(Error::ReasonTooLong);
        }
        self.transition(task_id, TaskStatus::Disputed, None, None);
        let ghost mid = *self;
        self.disputes.insert(task_id, Dispute { raised_by: who, reason });
        assert(forall|i: u64| #[trigger] self.task(i) == mid.task(i));
        assert(forall|t: u64, b: u64| #[trigger] self.bid(t, b) == mid.bid(t, b));
        assert(forall|t: u64| #[trigger] self.bidders_on(t) == mid.bidders_on(t));
        assert(forall|t: u64| t != task_id ==> #[trigger] self.dispute(t) == mid.dispute(t));
        assert(self.dispute(task_id) == Some(Dispute { raised_by: who, reason }));
        proof {
            lemma_escrow_one_changed(&mid, self, task_id);
        }
        Ok(())
    }

    /// The privileged identity settles a disputed task for `winner`, who
    /// must be its poster or its worker. A winning worker is paid the whole
    /// reward; a winning poster gets the escrow back. Either way the winner
    /// gains the dispute bonus and the other party takes the penalty.
    pub fn resolve_dispute<R: ReputationManager>(
        &mut self,
        currency: &mut Balances,
        reputation: &mut R,
        origin: Origin,
        task_id: u64,
        winner: u64,
    ) -> (r: Result<(), Error>)
        requires
            old(self).wf(),
            old(currency).wf(),
            old(reputation).inv(),
        ensures
            final(self).wf(),
            final(currency).wf(),
            escrow_backed(old(self), old(currency)) ==> escrow_backed(final(self), final(currency)),
            final(reputation).inv(),
            r == outcome(old(self).resolve_error(old(currency), origin, task_id, winner)),
            r is Err ==> *final(self) == *old(self) && *final(reputation) == *old(reputation)
                && unchanged(old(currency), final(currency)),
            r is Ok ==> ({
                let t = old(self).task(task_id)->0;
                let worker = t.assigned_to->0;
                let loser = if winner == worker {
                    t.poster
                } else {
                    worker
                };
                &&& old(self).only_task_changed(
                    final(self),
                    task_id,
                    with_status(t, TaskStatus::Resolved),
                )
                &&& forall|w: u64|
                    #[trigger] final(self).escrow(w) == old(self).escrow(w) - if w == t.poster {
                        t.reward as int
                    } else {
                        0
                    }
                &&& winner == worker ==> paid_from_reserve(
                    old(currency),
                    final(currency),
                    t.poster,
                    worker,
                    t.reward,
                )
                &&& winner != worker ==> released_to(
                    old(currency),
                    final(currency),
                    t.poster,
                    t.reward,
                )
                &&& winner != loser ==> final(reputation).record_of(winner) == won(
                    old(reputation).record_of(winner),
                ) && final(reputation).record_of(loser) == lost(old(reputation).record_of(loser))
                &&& forall|o: u64|
                    o != winner && o != loser ==> #[trigger] final(reputation).record_of(o) == old(
                        reputation,
                    ).record_of(o)
            }),
    {
        if origin != Origin::Root {
            return Err(Error::BadOrigin);
        }
        let t = match self.tasks.get(&task_id) {
            Some(t) => t,
            None => return Err(Error::TaskNotFound),
        };
        if t.status != TaskStatus::Disputed {
            return Err(Error::InvalidTaskStatus);
        }
        let poster = t.poster;
        let worker = t.assigned_to.unwrap();
        let reward = t.reward;
        if winner != poster && winner != worker {
            return Err(Error::InvalidWinner);
        }
        let loser = if winner == worker {
            match currency.transfer_from_reserved(poster, worker, reward) {
                Ok(()) => {},
                Err(e) => return Err(e),
            }
            poster
        } else {
            match currency.unreserve(poster, reward) {
                Ok(()) => {},
                Err(e) => return Err(e),
            }
            worker
        };
        self.transition(task_id, TaskStatus::Resolved, None, None);
        reputation.on_dispute_resolved(winner, loser);
        proof {
            assert forall|w: u64| escrow_backed(old(self), old(currency)) implies #[trigger] currency.account(
                w,
            ).reserved >= self.escrow(w) by {
                old(currency).lemma_account_fits(w);
            }
        }
        Ok(())
    }

    /// The poster withdraws an Open task and gets the escrow back.
    pub fn cancel_task(&mut self, currency: &mut Balances, origin: Origin, task_id: u64) -> (r:
        Result<(), Error>)
        requires
            old(self).wf(),
            old(currency).wf(),
        ensures
            final(self).wf(),
            final(currency).wf(),
            escrow_backed(old(self), old(currency)) ==> escrow_backed(final(self), final(currency)),
            r == outcome(old(self).cancel_error(old(currency), origin, task_id)),
            r is Err ==> *final(self) == *old(self) && unchanged(old(currency), final(currency)),
            r is Ok ==> ({
                let t = old(self).task(task_id)->0;
                &&& old(self).only_task_changed(
                    final(self),
                    task_id,
                    with_status(t, TaskStatus::Cancelled),
                )
                &&& forall|w: u64|
                    #[trigger] final(self).escrow(w) == old(self).escrow(w) - if w == t.poster {
                        t.reward as int
                    } else {
                        0
                    }
                &&& released_to(old(currency), final(currency), t.poster, t.reward)
            }),
    {
        let who = match origin {
            Origin::Signed(who) => who,
            Origin::Root => return Err(Error::BadOrigin),
        };
        let t = match self.tasks.get(&task_id) {
            Some(t) => t,
            None => return Err(Error::TaskNotFound),
        };
        if t.poster != who {
            return Err(Error::NotPoster);
        }
        if t.status != TaskStatus::Open {
            return Err(Error::InvalidTaskStatus);
        }
        let reward = t.reward;
        match currency.unreserve(who, reward) {
            Ok(()) => {},
            Err(e) => return Err(e),
        }
        self.transition(task_id, TaskStatus::Cancelled, None, None);
        proof {
            assert forall|w: u64| escrow_backed(old(self), old(currency)) implies #[trigger] currency.account(
                w,
            ).reserved >= self.escrow(w) by {
                old(currency).lemma_account_fits(w);
            }
        }
        Ok(())
    }

    /// Moves task `id` to `status`; `assignee` and `proof`, where given,
    /// replace its worker and its submission.
    fn transition(
        &mut self,
        id: u64,
        status: TaskStatus,
        assignee: Option<u64>,
        proof: Option<Vec<u8>>,
    )
        requires
            old(self).wf(),
            old(self).task(id) is Some,
            !(status == TaskStatus::Open || status == TaskStatus::Cancelled) ==> assignee is Some
                || old(self).task(id)->0.assigned_to is Some,
        ensures
            final(self).wf(),
            old(self).only_task_changed(
                final(self),
                id,
                ({
                    let t = old(self).task(id)->0;
                    Task {
                        status,
                        assigned_to: if assignee is Some {
                            assignee
                        } else {
                            t.assigned_to
                        },
                        submission: if proof is Some {
                            proof
                        } else {
                            t.submission
                        },
                        ..t
                    }
                }),
            ),
            id < old(self).posted_count(),
            forall|w: u64|
                #[trigger] final(self).escrow(w) == old(self).escrow(w) + final(self).escrow_of_task(
                    w,
                    id,
                ) - old(self).escrow_of_task(w, id),
    {
        let mut t = self.tasks.remove(&id).unwrap();
        t.status = status;
        if assignee.is_some() {
            t.assigned_to = assignee;
        }
        if proof.is_some() {
            t.submission = proof;
        }
        self.tasks.insert(id, t);
        assert forall|i: u64| #[trigger] self.tasks@.contains_key(i) <==> i < self.task_count by {
            assert(old(self).tasks@.contains_key(i) <==> i < self.task_count);
        }
        assert forall|i: u64| i != id implies #[trigger] self.task(i) == old(self).task(i) by {}
        proof {
            lemma_escrow_one_changed(old(self), self, id);
        }
    }
}

} // verus!

verus! {

pub open spec fn is_terminal(s: TaskStatus) -> bool {
    s == TaskStatus::Approved || s == TaskStatus::Cancelled || s == TaskStatus::Resolved
}

/// A task that reached Approved, Cancelled or Resolved stays there: every
/// operation on it is refused, whoever calls it and with whatever arguments,
/// so its escrow, once paid out or refunded, is never touched again.
pub proof fn lemma_terminal_tasks_are_final(
    market: &TaskMarket,
    currency: &Balances,
    id: u64,
    origin: Origin,
    other: u64,
    text_len: nat,
)
    requires
        market.task(id) is Some,
        is_terminal(market.task(id)->0.status),
    ensures
        market.bid_error(origin, id, text_len) is Some,
        market.assign_error(origin, id, other) is Some,
        market.submit_error(origin, id) is Some,
        market.approve_error(currency, origin, id) is Some,
        market.dispute_error(origin, id, text_len) is Some,
        market.resolve_error(currency, origin, id, other) is Some,
        market.cancel_error(currency, origin, id) is Some,
{
}

/// Only an Open task can be cancelled; from any other status the poster's
/// attempt is refused as being in the wrong status.
pub proof fn lemma_cancel_only_from_open(market: &TaskMarket, currency: &Balances, id: u64)
    requires
        market.task(id) is Some,
        market.task(id)->0.status != TaskStatus::Open,
    ensures
        market.cancel_error(currency, Origin::Signed(market.task(id)->0.poster), id) == Some(
            Error::InvalidTaskStatus,
        ),
{
}

} // verus!

verus! {

/// Changing one task moves a running escrow sum by that task's difference.
proof fn lemma_escrow_among_one_changed(a: &TaskMarket, b: &TaskMarket, who: u64, id: u64, n: nat)
    requires
        n <= u64::MAX,
        forall|i: u64| i != id ==> #[trigger] b.task(i) == a.task(i),
    ensures
        b.escrow_among(who, n) == a.escrow_among(who, n) + if id < n {
            b.escrow_of_task(who, id) - a.escrow_of_task(who, id)
        } else {
            0
        },
    decreases n,
{
    if n > 0 {
        lemma_escrow_among_one_changed(a, b, who, id, (n - 1) as nat);
        let last = (n - 1) as u64;
        if last != id {
            assert(b.task(last) == a.task(last));
        }
    }
}

/// Every running escrow sum is at least each active task's share in it.
proof fn lemma_escrow_among_covers(m: &TaskMarket, who: u64, id: u64, n: nat)
    requires
        n <= u64::MAX,
    ensures
        m.escrow_among(who, n) >= 0,
        id < n ==> m.escrow_among(who, n) >= m.escrow_of_task(who, id),
    decreases n,
{
    if n > 0 {
        lemma_escrow_among_covers(m, who, id, (n - 1) as nat);
    }
}

/// An active task's reward lies wholly within its poster's escrow: a
/// reserve that covers the poster's escrow covers the payout or refund
/// of that task.
pub proof fn lemma_task_reward_within_escrow(m: &TaskMarket, id: u64)
    requires
        m.task(id) is Some,
        is_active(m.task(id)->0.status),
        id < m.posted_count(),
    ensures
        m.escrow(m.task(id)->0.poster) >= m.task(id)->0.reward,
{
    lemma_escrow_among_covers(m, m.task(id)->0.poster, id, m.posted_count() as nat);
}

/// When one task changes, only its poster's escrow moves, by the task's
/// own difference.
proof fn lemma_escrow_one_changed(a: &TaskMarket, b: &TaskMarket, id: u64)
    requires
        b.posted_count() == a.posted_count(),
        forall|i: u64| i != id ==> #[trigger] b.task(i) == a.task(i),
    ensures
        forall|who: u64|
            #[trigger] b.escrow(who) == a.escrow(who) + if id < a.posted_count() {
                b.escrow_of_task(who, id) - a.escrow_of_task(who, id)
            } else {
                0
            },
{
    assert forall|who: u64|
        #[trigger] b.escrow(who) == a.escrow(who) + if id < a.posted_count() {
            b.escrow_of_task(who, id) - a.escrow_of_task(who, id)
        } else {
            0
        } by {
        lemma_escrow_among_one_changed(a, b, who, id, a.posted_count() as nat);
    }
}

} // verus!

verus! {

/// Where every reserve covers its escrow, the poster of an Open task can
/// always cancel it: the refund never fails for want of reserve.
pub proof fn lemma_backed_cancel_succeeds(market: &TaskMarket, currency: &Balances, id: u64)
    requires
        market.wf(),
        escrow_backed(market, currency),
        market.task(id) is Some,
        market.task(id)->0.status == TaskStatus::Open,
    ensures
        market.cancel_error(currency, Origin::Signed(market.task(id)->0.poster), id) is None,
{
    lemma_task_reward_within_escrow(market, id);
}

/// Where every reserve covers its escrow, paying out submitted or disputed
/// work never fails for want of reserve.
pub proof fn lemma_backed_payout_has_reserve(
    market: &TaskMarket,
    currency: &Balances,
    origin: Origin,
    id: u64,
    winner: u64,
)
    requires
        market.wf(),
        escrow_backed(market, currency),
    ensures
        market.approve_error(currency, origin, id) != Some(Error::InsufficientBalance),
        market.resolve_error(currency, origin, id, winner) != Some(Error::InsufficientBalance),
{
    if market.task(id) is Some && is_active(market.task(id)->0.status) {
        lemma_task_reward_within_escrow(market, id);
    }
}

} // verus!
