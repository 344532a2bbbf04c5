use std::collections::HashMap;
use vstd::prelude::*;

use crate::keys::{pack_pair, pair_key, lemma_pair_key_injective};
use crate::types::{Error, Origin};

verus! {

broadcast use vstd::std_specs::hash::group_hash_axioms;

/// The highest score an account can hold.
pub const MAX_SCORE: u32 = 10000;

/// Points a review earns per star, before the per-review cap.
pub const POINTS_PER_STAR: u32 = 100;

/// Score the winner of a dispute gains.
pub const DISPUTE_WIN_BONUS: u32 = 200;

/// Score the loser of a dispute loses.
pub const DISPUTE_LOSS_PENALTY: u32 = 500;

/// Deployment-time settings of the ledger.
#[derive(Debug, Clone, Copy, PartialEq, Eq, Structural)]
pub struct ReputationConfig {
    pub max_comment_length: u32,
    pub initial_reputation: u32,
    pub max_reputation_delta: u32,
    pub max_history_length: u32,
}

impl ReputationConfig {
    pub open spec fn wf(&self) -> bool {
        self.initial_reputation <= MAX_SCORE
    }
}

/// Score and statistics of one account.
#[derive(Debug, Clone, Copy, PartialEq, Eq, Structural)]
pub struct ReputationRecord {
    pub score: u32,
    pub total_tasks_completed: u32,
    pub successful_completions: u32,
    pub total_tasks_posted: u32,
    pub total_earned: u64,
    pub total_spent: u64,
    pub disputes_won: u32,
    pub disputes_lost: u32,
}

/// What moved a score.
#[derive(Debug, Clone, Copy, PartialEq, Eq, Structural)]
pub enum ReputationEvent {
    ReviewReceived { reviewer: u64, rating: u8, task_id: u64 },
    Slashed { amount: u32 },
    DisputeWon,
    DisputeLost,
}

/// One entry of an account's history: the event, the score before and after,
/// and the reason given where there was one.
#[derive(Debug)]
pub struct HistoryEntry {
    pub event: ReputationEvent,
    pub score_before: u32,
    pub score_after: u32,
    pub reason: Vec<u8>,
}

/// The latest review one account gave another.
#[derive(Debug)]
pub struct Review {
    pub reviewer: u64,
    pub reviewee: u64,
    pub rating: u8,
    pub comment: Vec<u8>,
    pub task_id: u64,
}

pub open spec fn initial_record(initial: u32) -> ReputationRecord {
    ReputationRecord {
        score: initial,
        total_tasks_completed: 0,
        successful_completions: 0,
        total_tasks_posted: 0,
        total_earned: 0,
        total_spent: 0,
        disputes_won: 0,
        disputes_lost: 0,
    }
}

pub open spec fn sat_add_u32(a: u32, b: u32) -> u32 {
    if a + b > u32::MAX {
        u32::MAX
    } else {
        (a + b) as u32
    }
}

pub open spec fn sat_add_u64(a: u64, b: u64) -> u64 {
    if a + b > u64::MAX {
        u64::MAX
    } else {
        (a + b) as u64
    }
}

/// `score + delta`, clamped to the highest score.
pub open spec fn raise(score: u32, delta: u32) -> u32 {
    if score + delta > MAX_SCORE {
        MAX_SCORE
    } else {
        (score + delta) as u32
    }
}

/// `score - delta`, clamped at zero.
pub open spec fn lower(score: u32, delta: u32) -> u32 {
    if delta > score {
        0
    } else {
        (score - delta) as u32
    }
}

/// Score a review of `rating` stars adds: a hundred per star, at most `cap`.
pub open spec fn review_delta(rating: u8, cap: u32) -> u32 {
    if rating * POINTS_PER_STAR > cap {
        cap
    } else {
        (rating * POINTS_PER_STAR) as u32
    }
}

/// A history after `e` is appended, keeping at most `cap` entries by
/// dropping the oldest.
pub open spec fn push_capped(h: Seq<HistoryEntry>, e: HistoryEntry, cap: u32) -> Seq<
    HistoryEntry,
> {
    if cap == 0 {
        h
    } else if h.len() < cap {
        h.push(e)
    } else {
        h.subrange(h.len() - cap + 1, h.len() as int).push(e)
    }
}

/// Why a review would be refused, checked in this order.
pub open spec fn review_error(
    origin: Origin,
    reviewee: u64,
    rating: u8,
    comment_len: nat,
    cfg: ReputationConfig,
) -> Option<Error> {
    match origin {
        Origin::Root => Some(Error::BadOrigin),
        Origin::Signed(reviewer) => {
            if rating < 1 || rating > 5 {
                Some(Error::InvalidRating)
            } else if reviewer == reviewee {
                Some(Error::SelfReview)
            } else if comment_len > cfg.max_comment_length {
                Some(Error::CommentTooLong)
            } else {
                None
            }
        },
    }
}

/// Why a slash would be refused, checked in this order.
pub open spec fn slash_error(origin: Origin, reason_len: nat, cfg: ReputationConfig) -> Option<
    Error,
> {
    if origin != Origin::Root {
        Some(Error::BadOrigin)
    } else if reason_len > cfg.max_comment_length {
        Some(Error::ReasonTooLong)
    } else {
        None
    }
}

pub open spec fn outcome(e: Option<Error>) -> Result<(), Error> {
    match e {
        Some(e) => Err(e),
        None => Ok(()),
    }
}

/// A record after a won dispute.
pub open spec fn won(r: ReputationRecord) -> ReputationRecord {
    ReputationRecord {
        score: raise(r.score, DISPUTE_WIN_BONUS),
        disputes_won: sat_add_u32(r.disputes_won, 1),
        ..r
    }
}

/// A record after a lost dispute.
pub open spec fn lost(r: ReputationRecord) -> ReputationRecord {
    ReputationRecord {
        score: lower(r.score, DISPUTE_LOSS_PENALTY),
        disputes_lost: sat_add_u32(r.disputes_lost, 1),
        ..r
    }
}

/// A record after a completed task that earned `earned`.
pub open spec fn completed(r: ReputationRecord, earned: u64) -> ReputationRecord {
    ReputationRecord {
        total_tasks_completed: sat_add_u32(r.total_tasks_completed, 1),
        successful_completions: sat_add_u32(r.successful_completions, 1),
        total_earned: sat_add_u64(r.total_earned, earned),
        ..r
    }
}

/// A record after posting a task that put `spent` in escrow.
pub open spec fn posted(r: ReputationRecord, spent: u64) -> ReputationRecord {
    ReputationRecord {
        total_tasks_posted: sat_add_u32(r.total_tasks_posted, 1),
        total_spent: sat_add_u64(r.total_spent, spent),
        ..r
    }
}

/// `new_h` is `old_h` with one entry appended for `event` that moved the score
/// from `before` to `after` and gave no reason.
pub open spec fn logged(
    old_h: Seq<HistoryEntry>,
    new_h: Seq<HistoryEntry>,
    event: ReputationEvent,
    before: u32,
    after: u32,
    cap: u32,
) -> bool {
    exists|e: HistoryEntry|
        e.event == event && e.score_before == before && e.score_after == after && e.reason@.len()
            == 0 && new_h == #[trigger] push_capped(old_h, e, cap)
}

/// The reputation ledger: a record per account, created at the initial
/// score on first reference, a capped history per account, and the latest
/// review per pair of rating and rated account.
pub struct Reputation {
    config: ReputationConfig,
    records: HashMap<u64, ReputationRecord>,
    histories: HashMap<u64, Vec<HistoryEntry>>,
    reviews: HashMap<u128, Review>,
}

impl Reputation {
    pub closed spec fn config(&self) -> ReputationConfig {
        self.config
    }

    /// The record of `who`; one never touched holds the initial score.
    pub closed spec fn record(&self, who: u64) -> ReputationRecord {
        if self.records@.contains_key(who) {
            self.records@[who]
        } else {
            initial_record(self.config.initial_reputation)
        }
    }

    /// The history of `who`, oldest entry first.
    pub closed spec fn history(&self, who: u64) -> Seq<HistoryEntry> {
        if self.histories@.contains_key(who) {
            self.histories@[who]@
        } else {
            Seq::empty()
        }
    }

    /// The latest review that the first account gave the second.
    pub closed spec fn review(&self, reviewer: u64, reviewee: u64) -> Option<Review> {
        let k = pair_key(reviewer, reviewee);
        if self.reviews@.contains_key(k) {
            Some(self.reviews@[k])
        } else {
            None
        }
    }

    pub closed spec fn wf(&self) -> bool {
        &&& self.config.wf()
        &&& forall|who: u64| #[trigger] self.record(who).score <= MAX_SCORE
        &&& forall|who: u64| #[trigger] self.history(who).len() <= self.config.max_history_length
    }

    /// Every account but those named keeps its record.
    pub open spec fn records_kept_except(&self, other: &Reputation, a: u64, b: u64) -> bool {
        forall|who: u64| who != a && who != b ==> #[trigger] other.record(who) == self.record(who)
    }

    /// Every account but those named keeps its history.
    pub open spec fn histories_kept_except(&self, other: &Reputation, a: u64, b: u64) -> bool {
        forall|who: u64|
            who != a && who != b ==> #[trigger] other.history(who) == self.history(who)
    }

    pub open spec fn histories_kept(&self, other: &Reputation) -> bool {
        forall|who: u64| #[trigger] other.history(who) == self.history(who)
    }

    pub open spec fn reviews_kept(&self, other: &Reputation) -> bool {
        forall|x: u64, y: u64| #[trigger] other.review(x, y) == self.review(x, y)
    }

    pub fn new(config: ReputationConfig) -> (r: Reputation)
        requires
            config.wf(),
        ensures
            r.wf(),
            r.config() == config,
            forall|who: u64| #[trigger] r.record(who) == initial_record(config.initial_reputation),
            forall|who: u64| #[trigger] r.history(who).len() == 0,
            forall|x: u64, y: u64| #[trigger] r.review(x, y).is_none(),
    {
        Reputation {
            config,
            records: HashMap::new(),
            histories: HashMap::new(),
            reviews: HashMap::new(),
        }
    }

    pub fn get_config(&self) -> (r: ReputationConfig)
        ensures
            r == self.config(),
    {
        self.config
    }

    /// The record of `who`, at the initial score if `who` was never touched.
    pub fn reputations(&self, who: u64) -> (r: ReputationRecord)
        ensures
            r == self.record(who),
    {
        match self.records.get(&who) {
            Some(rec) => *rec,
            None => ReputationRecord {
                score: self.config.initial_reputation,
                total_tasks_completed: 0,
                successful_completions: 0,
                total_tasks_posted: 0,
                total_earned: 0,
                total_spent: 0,
                disputes_won: 0,
                disputes_lost: 0,
            },
        }
    }

    fn store(&mut self, who: u64, rec: ReputationRecord)
        requires
            old(self).wf(),
            rec.score <= MAX_SCORE,
        ensures
            final(self).wf(),
            final(self).config() == old(self).config(),
            final(self).record(who) == rec,
            old(self).records_kept_except(final(self), who, who),
            forall|o: u64| #[trigger] final(self).history(o) == old(self).history(o),
            old(self).reviews_kept(final(self)),
    {
        self.records.insert(who, rec);
        assert forall|o: u64| #[trigger] self.record(o).score <= MAX_SCORE by {
            if o != who {
                assert(self.record(o) == old(self).record(o));
            }
        }
        assert(forall|o: u64| #[trigger] self.history(o) == old(self).history(o));
    }

    /// Appends `entry` to the history of `who`, dropping the oldest entry
    /// once the history is full.
    fn log_event(&mut self, who: u64, entry: HistoryEntry)
        requires
            old(self).wf(),
        ensures
            final(self).wf(),
            final(self).config() == old(self).config(),
            final(self).history(who) == push_capped(
                old(self).history(who),
                entry,
                old(self).config().max_history_length,
            ),
            old(self).records_kept_except(final(self), who, who),
            old(self).histories_kept_except(final(self), who, who),
            forall|o: u64| #[trigger] final(self).record(o) == old(self).record(o),
            old(self).reviews_kept(final(self)),
    {
        let cap = self.config.max_history_length;
        if cap == 0 {
            return;
        }
        let mut h = match self.histories.remove(&who) {
            Some(h) => h,
            None => Vec::new(),
        };
        assert(h@ == old(self).history(who));
        if h.len() >= cap as usize {
            h.remove(0);
        }
        h.push(entry);
        assert(h@ =~= push_capped(old(self).history(who), entry, cap));
        self.histories.insert(who, h);
        assert forall|o: u64| #[trigger] self.history(o).len() <= cap by {
            if o != who {
                assert(self.history(o) == old(self).history(o));
            }
        }
        assert(forall|o: u64| #[trigger] self.record(o) == old(self).record(o));
    }

    /// The score of `who`.
    pub fn get_reputation(&self, who: u64) -> (r: u32)
        ensures
            r == self.record(who).score,
    {
        self.reputations(who).score
    }

    /// Whether `who` holds at least `threshold`.
    pub fn meets_minimum_reputation(&self, who: u64, threshold: u32) -> (r: bool)
        ensures
            r == (self.record(who).score >= threshold),
    {
        self.get_reputation(who) >= threshold
    }

    /// Number of entries in the history of `who`.
    pub fn history_len(&self, who: u64) -> (r: usize)
        ensures
            r == self.history(who).len(),
    {
        match self.histories.get(&who) {
            Some(h) => h.len(),
            None => 0,
        }
    }

    /// Entry `i` of the history of `who`, oldest first.
    pub fn history_at(&self, who: u64, i: usize) -> (r: Option<&HistoryEntry>)
        ensures
            i < self.history(who).len() ==> r == Some(&self.history(who)[i as int]),
            i >= self.history(who).len() ==> r.is_none(),
    {
        match self.histories.get(&who) {
            Some(h) => {
                if i < h.len() {
                    Some(&h[i])
                } else {
                    None
                }
            },
            None => None,
        }
    }

    /// The latest review that the first account gave the second.
    pub fn reviews(&self, reviewer: u64, reviewee: u64) -> (r: Option<&Review>)
        ensures
            r == match self.review(reviewer, reviewee) {
                Some(v) => Some(&v),
                None => None::<&Review>,
            },
    {
        self.reviews.get(&pack_pair(reviewer, reviewee))
    }
    /// Appends an entry without a reason for `event` to the history of `who`.
    fn log_plain(&mut self, who: u64, event: ReputationEvent, before: u32, after: u32)
        requires
            old(self).wf(),
        ensures
            final(self).wf(),
            final(self).config() == old(self).config(),
            logged(
                old(self).history(who),
                final(self).history(who),
                event,
                before,
                after,
                old(self).config().max_history_length,
            ),
            old(self).histories_kept_except(final(self), who, who),
            forall|o: u64| #[trigger] final(self).record(o) == old(self).record(o),
            old(self).reviews_kept(final(self)),
    {
        let entry = HistoryEntry { event, score_before: before, score_after: after, reason: Vec::new() };
        let ghost e = entry;
        self.log_event(who, entry);
        assert(final(self).history(who) == push_capped(
            old(self).history(who),
            e,
            old(self).config().max_history_length,
        ));
    }

    /// The caller rates another account one to five stars, which raises the
    /// rated account's score by a hundred per star (at most the configured delta),
    /// clamped to the highest score. A later review of the same pair takes
    /// the place of the earlier one and adds its own delta; the earlier delta
    /// is not taken back.
    pub fn submit_review(
        &mut self,
        origin: Origin,
        reviewee: u64,
        rating: u8,
        comment: Vec<u8>,
        task_id: u64,
    ) -> (r: Result<(), Error>)
        requires
            old(self).wf(),
        ensures
            final(self).wf(),
            final(self).config() == old(self).config(),
            r == outcome(review_error(origin, reviewee, rating, comment@.len(), old(self).config())),
            r is Err ==> *final(self) == *old(self),
            r is Ok ==> ({
                let reviewer = origin->Signed_0;
                let before = old(self).record(reviewee);
                let after = raise(
                    before.score,
                    review_delta(rating, old(self).config().max_reputation_delta),
                );
                &&& final(self).record(reviewee) == ReputationRecord { score: after, ..before }
                &&& old(self).records_kept_except(final(self), reviewee, reviewee)
                &&& final(self).review(reviewer, reviewee) == Some(
                    Review { reviewer, reviewee, rating, comment, task_id },
                )
                &&& forall|x: u64, y: u64|
                    !(x == reviewer && y == reviewee) ==> #[trigger] final(self).review(x, y)
                        == old(self).review(x, y)
                &&& logged(
                    old(self).history(reviewee),
                    final(self).history(reviewee),
                    ReputationEvent::ReviewReceived { reviewer, rating, task_id },
                    before.score,
                    after,
                    old(self).config().max_history_length,
                )
                &&& old(self).histories_kept_except(final(self), reviewee, reviewee)
            }),
    {
        let reviewer = match origin {
            Origin::Signed(who) => who,
            Origin::Root => return Err(Error::BadOrigin),
        };
        if rating < 1 || rating > 5 {
            return Err(Error::InvalidRating);
        }
        if reviewer == reviewee {
            return Err(Error::SelfReview);
        }
        if comment.len() > self.config.max_comment_length as usize {
            return Err(Error::CommentTooLong);
        }
        let points = rating as u32 * POINTS_PER_STAR;
        let delta = if points > self.config.max_reputation_delta {
            self.config.max_reputation_delta
        } else {
            points
        };
        let rec = self.reputations(reviewee);
        let after = if rec.score as u64 + delta as u64 > MAX_SCORE as u64 {
            MAX_SCORE
        } else {
            rec.score + delta
        };
        self.store(reviewee, ReputationRecord { score: after, ..rec });
        self.log_plain(
            reviewee,
            ReputationEvent::ReviewReceived { reviewer, rating, task_id },
            rec.score,
            after,
        );
        let ghost mid = *self;
        let key = pack_pair(reviewer, reviewee);
        self.reviews.insert(key, Review { reviewer, reviewee, rating, comment, task_id });
        assert forall|x: u64, y: u64|
            !(x == reviewer && y == reviewee) implies #[trigger] self.review(x, y) == mid.review(
            x,
            y,
        ) by {
            lemma_pair_key_injective(x, y, reviewer, reviewee);
        }
        assert(forall|o: u64| #[trigger] self.record(o) == mid.record(o));
        assert(forall|o: u64| #[trigger] self.history(o) == mid.history(o));
        Ok(())
    }

    /// The privileged identity lowers the score of `target` by `amount`,
    /// clamped at zero, and records `reason` in the target's history.
    pub fn slash_reputation(&mut self, origin: Origin, target: u64, amount: u32, reason: Vec<u8>) -> (r:
        Result<(), Error>)
        requires
            old(self).wf(),
        ensures
            final(self).wf(),
            final(self).config() == old(self).config(),
            r == outcome(slash_error(origin, reason@.len(), old(self).config())),
            r is Err ==> *final(self) == *old(self),
            r is Ok ==> ({
                let before = old(self).record(target);
                let after = lower(before.score, amount);
                &&& final(self).record(target) == ReputationRecord { score: after, ..before }
                &&& old(self).records_kept_except(final(self), target, target)
                &&& final(self).history(target) == push_capped(
                    old(self).history(target),
                    HistoryEntry {
                        event: ReputationEvent::Slashed { amount },
                        score_before: before.score,
                        score_after: after,
                        reason,
                    },
                    old(self).config().max_history_length,
                )
                &&& old(self).histories_kept_except(final(self), target, target)
                &&& old(self).reviews_kept(final(self))
            }),
    {
        if origin != Origin::Root {
            return Err(Error::BadOrigin);
        }
        if reason.len() > self.config.max_comment_length as usize {
            return Err(Error::ReasonTooLong);
        }
        let rec = self.reputations(target);
        let after = rec.score.saturating_sub(amount);
        self.store(target, ReputationRecord { score: after, ..rec });
        self.log_event(
            target,
            HistoryEntry {
                event: ReputationEvent::Slashed { amount },
                score_before: rec.score,
                score_after: after,
                reason,
            },
        );
        Ok(())
    }

    /// Counts a task that `worker` completed, earning `earned`. The score is
    /// left as it is.
    pub fn on_task_completed(&mut self, worker: u64, earned: u64)
        requires
            old(self).wf(),
        ensures
            final(self).wf(),
            final(self).config() == old(self).config(),
            final(self).record(worker) == completed(old(self).record(worker), earned),
            old(self).records_kept_except(final(self), worker, worker),
            old(self).histories_kept(final(self)),
            old(self).reviews_kept(final(self)),
    {
        let rec = self.reputations(worker);
        self.store(
            worker,
            ReputationRecord {
                total_tasks_completed: rec.total_tasks_completed.saturating_add(1),
                successful_completions: rec.successful_completions.saturating_add(1),
                total_earned: rec.total_earned.saturating_add(earned),
                ..rec
            },
        );
    }

    /// Counts a task that `poster` posted, putting `spent` in escrow.
    pub fn on_task_posted(&mut self, poster: u64, spent: u64)
        requires
            old(self).wf(),
        ensures
            final(self).wf(),
            final(self).config() == old(self).config(),
            final(self).record(poster) == posted(old(self).record(poster), spent),
            old(self).records_kept_except(final(self), poster, poster),
            old(self).histories_kept(final(self)),
            old(self).reviews_kept(final(self)),
    {
        let rec = self.reputations(poster);
        self.store(
            poster,
            ReputationRecord {
                total_tasks_posted: rec.total_tasks_posted.saturating_add(1),
                total_spent: rec.total_spent.saturating_add(spent),
                ..rec
            },
        );
    }

    /// Settles a dispute: the winner gains the win bonus and one won dispute,
    /// the loser takes the loss penalty and one lost dispute, each score
    /// clamped to its range. Each change is logged in the account's history.
    pub fn on_dispute_resolved(&mut self, winner: u64, loser: u64)
        requires
            old(self).wf(),
        ensures
            final(self).wf(),
            final(self).config() == old(self).config(),
            winner != loser ==> final(self).record(winner) == won(old(self).record(winner))
                && final(self).record(loser) == lost(old(self).record(loser)),
            winner == loser ==> final(self).record(winner) == lost(won(old(self).record(winner))),
            old(self).records_kept_except(final(self), winner, loser),
            old(self).histories_kept_except(final(self), winner, loser),
            old(self).reviews_kept(final(self)),
    {
        let w = self.reputations(winner);
        let w_after = if w.score + DISPUTE_WIN_BONUS > MAX_SCORE {
            MAX_SCORE
        } else {
            w.score + DISPUTE_WIN_BONUS
        };
        self.store(
            winner,
            ReputationRecord { score: w_after, disputes_won: w.disputes_won.saturating_add(1), ..w },
        );
        self.log_plain(winner, ReputationEvent::DisputeWon, w.score, w_after);
        let l = self.reputations(loser);
        let l_after = l.score.saturating_sub(DISPUTE_LOSS_PENALTY);
        self.store(
            loser,
            ReputationRecord {
                score: l_after,
                disputes_lost: l.disputes_lost.saturating_add(1),
                ..l
            },
        );
        self.log_plain(loser, ReputationEvent::DisputeLost, l.score, l_after);
    }
}

} // verus!

verus! {

/// Under a cap of at least five hundred points, a review of one to five
/// stars is worth exactly a hundred points per star.
pub proof fn lemma_review_delta_per_star(rating: u8, cap: u32)
    requires
        1 <= rating <= 5,
        cap >= 5 * POINTS_PER_STAR,
    ensures
        review_delta(rating, cap) == rating * POINTS_PER_STAR,
{
}

/// The score after `n` reviews that each add `delta`, starting at `score`.
pub open spec fn after_reviews(score: u32, delta: u32, n: nat) -> u32
    decreases n,
{
    if n == 0 {
        score
    } else {
        raise(after_reviews(score, delta, (n - 1) as nat), delta)
    }
}

/// Repeated reviews never carry a score past the highest score: from an
/// in-range score, `n` reviews adding `delta` each leave `score + n * delta`
/// clamped to the highest score.
pub proof fn lemma_repeated_reviews_converge(score: u32, delta: u32, n: nat)
    requires
        score <= MAX_SCORE,
    ensures
        after_reviews(score, delta, n) <= MAX_SCORE,
        after_reviews(score, delta, n) == if score + n * delta > MAX_SCORE {
            MAX_SCORE as int
        } else {
            score + n * delta
        },
    decreases n,
{
    if n > 0 {
        let m = (n - 1) as nat;
        lemma_repeated_reviews_converge(score, delta, m);
        assert(m * delta + delta == n * delta) by (nonlinear_arith)
            requires
                m + 1 == n,
        ;
        assert(n * delta >= m * delta) by (nonlinear_arith)
            requires
                m + 1 == n,
        ;
        let prev = after_reviews(score, delta, m);
        assert(after_reviews(score, delta, n) == raise(prev, delta));
        if score + m * delta > MAX_SCORE {
            assert(prev == MAX_SCORE);
            assert(score + n * delta > MAX_SCORE);
        } else {
            assert(prev == score + m * delta);
        }
    } else {
        assert(n * delta == 0) by (nonlinear_arith)
            requires
                n == 0,
        ;
    }
}

/// A dispute moves each party by a fixed amount whatever their scores, and
/// only the bounds of the score range cut it short: the winner gains the
/// bonus and the loser loses the penalty exactly wherever that stays in range.
pub proof fn lemma_dispute_deltas(w: ReputationRecord, l: ReputationRecord)
    ensures
        won(w).score == if w.score + DISPUTE_WIN_BONUS > MAX_SCORE {
            MAX_SCORE as int
        } else {
            w.score + DISPUTE_WIN_BONUS
        },
        lost(l).score == if l.score < DISPUTE_LOSS_PENALTY {
            0
        } else {
            l.score - DISPUTE_LOSS_PENALTY
        },
        w.disputes_won < u32::MAX ==> won(w).disputes_won == w.disputes_won + 1,
        l.disputes_lost < u32::MAX ==> lost(l).disputes_lost == l.disputes_lost + 1,
{
}

} // verus!

verus! {

/// What the task market may do to a reputation ledger, and all it knows of
/// one: a record per account, which the three callbacks move as stated and
/// leave alone for every other account.
pub trait ReputationManager {
    /// The ledger's own well-formedness, kept by every callback.
    spec fn inv(&self) -> bool;

    /// The record of `who` as the ledger reports it.
    spec fn record_of(&self, who: u64) -> ReputationRecord;

    fn on_task_completed(&mut self, worker: u64, earned: u64)
        requires
            old(self).inv(),
        ensures
            final(self).inv(),
            final(self).record_of(worker) == completed(old(self).record_of(worker), earned),
            forall|o: u64|
                o != worker ==> #[trigger] final(self).record_of(o) == old(self).record_of(o),
    ;

    fn on_task_posted(&mut self, poster: u64, spent: u64)
        requires
            old(self).inv(),
        ensures
            final(self).inv(),
            final(self).record_of(poster) == posted(old(self).record_of(poster), spent),
            forall|o: u64|
                o != poster ==> #[trigger] final(self).record_of(o) == old(self).record_of(o),
    ;

    fn on_dispute_resolved(&mut self, winner: u64, loser: u64)
        requires
            old(self).inv(),
        ensures
            final(self).inv(),
            winner != loser ==> final(self).record_of(winner) == won(old(self).record_of(winner))
                && final(self).record_of(loser) == lost(old(self).record_of(loser)),
            winner == loser ==> final(self).record_of(winner) == lost(
                won(old(self).record_of(winner)),
            ),
            forall|o: u64|
                o != winner && o != loser ==> #[trigger] final(self).record_of(o) == old(
                    self,
                ).record_of(o),
    ;

    fn get_reputation(&self, who: u64) -> (r: u32)
        ensures
            r == self.record_of(who).score,
    ;

    fn meets_minimum_reputation(&self, who: u64, threshold: u32) -> (r: bool)
        ensures
            r == (self.record_of(who).score >= threshold),
    ;
}

impl ReputationManager for Reputation {
    open spec fn inv(&self) -> bool {
        self.wf()
    }

    open spec fn record_of(&self, who: u64) -> ReputationRecord {
        self.record(who)
    }

    fn on_task_completed(&mut self, worker: u64, earned: u64) {
        Reputation::on_task_completed(self, worker, earned);
    }

    fn on_task_posted(&mut self, poster: u64, spent: u64) {
        Reputation::on_task_posted(self, poster, spent);
    }

    fn on_dispute_resolved(&mut self, winner: u64, loser: u64) {
        Reputation::on_dispute_resolved(self, winner, loser);
    }

    fn get_reputation(&self, who: u64) -> (r: u32) {
        Reputation::get_reputation(self, who)
    }

    fn meets_minimum_reputation(&self, who: u64, threshold: u32) -> (r: bool) {
        Reputation::meets_minimum_reputation(self, who, threshold)
    }
}

} // verus!
