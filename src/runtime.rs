use vstd::prelude::*;

use crate::balances::{AccountData, Balances, empty_account};
use crate::reputation::{Reputation, ReputationConfig, initial_record};
use crate::task_market::{MarketConfig, TaskMarket, escrow_backed};

verus! {

pub const MAX_COMMENT_LENGTH: u32 = 256;
pub const INITIAL_REPUTATION: u32 = 5000;
pub const MAX_REPUTATION_DELTA: u32 = 500;
pub const MAX_HISTORY_LENGTH: u32 = 100;
pub const MAX_TITLE_LENGTH: u32 = 128;
pub const MAX_DESCRIPTION_LENGTH: u32 = 1024;
pub const MAX_PROPOSAL_LENGTH: u32 = 512;
pub const MAX_BIDS_PER_TASK: u32 = 20;
pub const MIN_TASK_REWARD: u64 = 100;
pub const MAX_ACTIVE_TASKS_PER_ACCOUNT: u32 = 50;

/// Free balance each of the accounts 1, 2 and 3 starts with.
pub const GENESIS_BALANCE: u64 = 10000;

/// The currency ledger, the reputation ledger and the task market of one
/// chain. Operations on the market take the other two as arguments.
pub struct Runtime {
    pub balances: Balances,
    pub reputation: Reputation,
    pub task_market: TaskMarket,
}

impl Runtime {
    pub open spec fn wf(&self) -> bool {
        self.balances.wf() && self.reputation.wf() && self.task_market.wf()
    }
}

pub open spec fn default_reputation_config() -> ReputationConfig {
    ReputationConfig {
        max_comment_length: MAX_COMMENT_LENGTH,
        initial_reputation: INITIAL_REPUTATION,
        max_reputation_delta: MAX_REPUTATION_DELTA,
        max_history_length: MAX_HISTORY_LENGTH,
    }
}

pub open spec fn default_market_config() -> MarketConfig {
    MarketConfig {
        max_title_length: MAX_TITLE_LENGTH,
        max_description_length: MAX_DESCRIPTION_LENGTH,
        max_proposal_length: MAX_PROPOSAL_LENGTH,
        max_bids_per_task: MAX_BIDS_PER_TASK,
        min_task_reward: MIN_TASK_REWARD,
        max_active_tasks_per_account: MAX_ACTIVE_TASKS_PER_ACCOUNT,
    }
}

/// A runtime at genesis with the default settings: accounts 1, 2 and 3 each
/// hold the genesis balance, no one else holds anything, every account is at
/// the initial score, and no task has been posted.
pub fn new_test_ext() -> (r: Runtime)
    ensures
        r.wf(),
        forall|who: u64|
            #[trigger] r.balances.account(who) == if 1 <= who <= 3 {
                AccountData { free: GENESIS_BALANCE, reserved: 0 }
            } else {
                empty_account()
            },
        r.reputation.config() == default_reputation_config(),
        forall|who: u64| #[trigger] r.reputation.record(who) == initial_record(INITIAL_REPUTATION),
        forall|who: u64| #[trigger] r.reputation.history(who).len() == 0,
        forall|x: u64, y: u64| #[trigger] r.reputation.review(x, y).is_none(),
        r.task_market.config() == default_market_config(),
        r.task_market.posted_count() == 0,
        forall|id: u64| #[trigger] r.task_market.task(id).is_none(),
        forall|t: u64, b: u64| #[trigger] r.task_market.bid(t, b).is_none(),
        forall|t: u64| #[trigger] r.task_market.bidders_on(t) == 0,
        forall|t: u64| #[trigger] r.task_market.dispute(t).is_none(),
        escrow_backed(&r.task_market, &r.balances),
{
    let mut balances = Balances::new();
    let mut who: u64 = 1;
    while who <= 3
        invariant
            1 <= who <= 4,
            balances.wf(),
            forall|o: u64|
                #[trigger] balances.account(o) == if 1 <= o < who {
                    AccountData { free: GENESIS_BALANCE, reserved: 0 }
                } else {
                    empty_account()
                },
        decreases 4 - who,
    {
        let set = balances.set_free_balance(who, GENESIS_BALANCE);
        assert(set is Ok);
        who = who + 1;
    }
    let reputation = Reputation::new(
        ReputationConfig {
            max_comment_length: MAX_COMMENT_LENGTH,
            initial_reputation: INITIAL_REPUTATION,
            max_reputation_delta: MAX_REPUTATION_DELTA,
            max_history_length: MAX_HISTORY_LENGTH,
        },
    );
    let task_market = TaskMarket::new(
        MarketConfig {
            max_title_length: MAX_TITLE_LENGTH,
            max_description_length: MAX_DESCRIPTION_LENGTH,
            max_proposal_length: MAX_PROPOSAL_LENGTH,
            max_bids_per_task: MAX_BIDS_PER_TASK,
            min_task_reward: MIN_TASK_REWARD,
            max_active_tasks_per_account: MAX_ACTIVE_TASKS_PER_ACCOUNT,
        },
    );
    Runtime { balances, reputation, task_market }
}

} // verus!
