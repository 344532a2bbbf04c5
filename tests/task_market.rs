use clawchain::task_market::MarketConfig;
use clawchain::{new_test_ext, Balances, Error, Origin, Runtime, TaskMarket, TaskStatus};

fn post(ext: &mut Runtime, poster: u64, reward: u64) -> Result<u64, Error> {
    ext.task_market.post_task(
        &mut ext.balances,
        &mut ext.reputation,
        Origin::signed(poster),
        b"Task".to_vec(),
        b"Description".to_vec(),
        reward,
        1000,
    )
}

fn bid(ext: &mut Runtime, bidder: u64, task_id: u64) -> Result<(), Error> {
    ext.task_market.bid_on_task(Origin::signed(bidder), task_id, 800, b"Proposal".to_vec())
}

/// Posts task 0 by account 1, has account 2 bid, assigns it and submits work.
fn submitted(ext: &mut Runtime) {
    assert!(post(ext, 1, 1000).is_ok());
    assert!(bid(ext, 2, 0).is_ok());
    assert!(ext.task_market.assign_task(Origin::signed(1), 0, 2).is_ok());
    assert!(ext.task_market.submit_work(Origin::signed(2), 0, b"Proof".to_vec()).is_ok());
}

#[test]
fn post_task_works() {
    let mut ext = new_test_ext();
    let poster = 1;
    let title = b"Build a website".to_vec();
    let description = b"Need a React website".to_vec();
    let reward = 1000u64;
    let deadline = 1000u64;

    assert!(ext
        .task_market
        .post_task(
            &mut ext.balances,
            &mut ext.reputation,
            Origin::signed(poster),
            title.clone(),
            description,
            reward,
            deadline
        )
        .is_ok());

    let task = ext.task_market.tasks(0).unwrap();
    assert_eq!(task.poster, poster);
    assert_eq!(task.reward, reward);
    assert_eq!(task.status, TaskStatus::Open);
    assert_eq!(task.title, title);

    assert_eq!(ext.balances.reserved_balance(poster), reward);

    let rep = ext.reputation.reputations(poster);
    assert_eq!(rep.total_tasks_posted, 1);
    assert_eq!(rep.total_spent, reward);
}

#[test]
fn post_task_fails_if_reward_too_low() {
    let mut ext = new_test_ext();
    assert_eq!(
        ext.task_market.post_task(
            &mut ext.balances,
            &mut ext.reputation,
            Origin::signed(1),
            b"Task".to_vec(),
            b"Description".to_vec(),
            50,
            1000
        ),
        Err(Error::RewardTooLow)
    );
    assert_eq!(ext.balances.reserved_balance(1), 0);
    assert_eq!(ext.balances.free_balance(1), 10000);
    assert_eq!(ext.task_market.task_count(), 0);
    assert_eq!(ext.reputation.reputations(1).total_tasks_posted, 0);
}

#[test]
fn bid_on_task_works() {
    let mut ext = new_test_ext();
    let poster = 1;
    let bidder = 2;
    assert!(post(&mut ext, poster, 1000).is_ok());
    assert!(ext
        .task_market
        .bid_on_task(Origin::signed(bidder), 0, 800, b"I can do this".to_vec())
        .is_ok());
    let b = ext.task_market.task_bids(0, bidder).unwrap();
    assert_eq!(b.bidder, bidder);
    assert_eq!(b.amount, 800);
}

#[test]
fn cannot_bid_on_own_task() {
    let mut ext = new_test_ext();
    let poster = 1;
    assert!(post(&mut ext, poster, 1000).is_ok());
    assert_eq!(
        ext.task_market.bid_on_task(Origin::signed(poster), 0, 800, b"Proposal".to_vec()),
        Err(Error::CannotBidOnOwnTask)
    );
    assert!(ext.task_market.task_bids(0, poster).is_none());
}

#[test]
fn assign_task_works() {
    let mut ext = new_test_ext();
    let poster = 1;
    let bidder = 2;
    assert!(post(&mut ext, poster, 1000).is_ok());
    assert!(bid(&mut ext, bidder, 0).is_ok());
    assert!(ext.task_market.assign_task(Origin::signed(poster), 0, bidder).is_ok());
    let task = ext.task_market.tasks(0).unwrap();
    assert_eq!(task.status, TaskStatus::Assigned);
    assert_eq!(task.assigned_to, Some(bidder));
}

#[test]
fn only_poster_can_assign() {
    let mut ext = new_test_ext();
    let poster = 1;
    let bidder = 2;
    let other = 3;
    assert!(post(&mut ext, poster, 1000).is_ok());
    assert!(bid(&mut ext, bidder, 0).is_ok());
    assert_eq!(
        ext.task_market.assign_task(Origin::signed(other), 0, bidder),
        Err(Error::NotPoster)
    );
    assert_eq!(ext.task_market.tasks(0).unwrap().status, TaskStatus::Open);
}

#[test]
fn submit_and_approve_work_releases_escrow() {
    let mut ext = new_test_ext();
    let poster = 1;
    let worker = 2;
    assert!(post(&mut ext, poster, 1000).is_ok());
    assert!(bid(&mut ext, worker, 0).is_ok());
    assert!(ext.task_market.assign_task(Origin::signed(poster), 0, worker).is_ok());

    let worker_balance_before = ext.balances.free_balance(worker);

    assert!(ext
        .task_market
        .submit_work(Origin::signed(worker), 0, b"https://proof.com".to_vec())
        .is_ok());
    assert!(ext
        .task_market
        .approve_work(&mut ext.balances, &mut ext.reputation, Origin::signed(poster), 0)
        .is_ok());

    let task = ext.task_market.tasks(0).unwrap();
    assert_eq!(task.status, TaskStatus::Approved);
    assert_eq!(task.submission, Some(b"https://proof.com".to_vec()));

    assert_eq!(ext.balances.free_balance(worker), worker_balance_before + 1000);
    assert_eq!(ext.balances.free_balance(poster), 9000);
    assert_eq!(ext.balances.reserved_balance(poster), 0);

    let rep = ext.reputation.reputations(worker);
    assert_eq!(rep.total_tasks_completed, 1);
    assert_eq!(rep.successful_completions, 1);
    assert_eq!(rep.total_earned, 1000);
}

#[test]
fn cancel_task_refunds_escrow() {
    let mut ext = new_test_ext();
    let poster = 1;
    assert!(post(&mut ext, poster, 1000).is_ok());
    assert_eq!(ext.balances.reserved_balance(poster), 1000);
    assert!(ext.task_market.cancel_task(&mut ext.balances, Origin::signed(poster), 0).is_ok());
    assert_eq!(ext.balances.reserved_balance(poster), 0);
    assert_eq!(ext.balances.free_balance(poster), 10000);
    let task = ext.task_market.tasks(0).unwrap();
    assert_eq!(task.status, TaskStatus::Cancelled);
}

#[test]
fn cannot_cancel_assigned_task() {
    let mut ext = new_test_ext();
    let poster = 1;
    let worker = 2;
    assert!(post(&mut ext, poster, 1000).is_ok());
    assert!(bid(&mut ext, worker, 0).is_ok());
    assert!(ext.task_market.assign_task(Origin::signed(poster), 0, worker).is_ok());
    assert_eq!(
        ext.task_market.cancel_task(&mut ext.balances, Origin::signed(poster), 0),
        Err(Error::InvalidTaskStatus)
    );
    assert_eq!(ext.balances.reserved_balance(poster), 1000);
}

#[test]
fn dispute_task_works() {
    let mut ext = new_test_ext();
    let poster = 1;
    submitted(&mut ext);
    assert!(ext
        .task_market
        .dispute_task(Origin::signed(poster), 0, b"Work is incomplete".to_vec())
        .is_ok());
    let task = ext.task_market.tasks(0).unwrap();
    assert_eq!(task.status, TaskStatus::Disputed);
    let d = ext.task_market.disputes(0).unwrap();
    assert_eq!(d.raised_by, poster);
    assert_eq!(d.reason, b"Work is incomplete".to_vec());
}

#[test]
fn resolve_dispute_updates_reputation() {
    let mut ext = new_test_ext();
    let poster = 1;
    let worker = 2;
    submitted(&mut ext);
    assert!(ext.task_market.dispute_task(Origin::signed(poster), 0, b"Dispute".to_vec()).is_ok());

    let poster_rep_before = ext.reputation.reputations(poster).score;
    let worker_rep_before = ext.reputation.reputations(worker).score;

    assert!(ext
        .task_market
        .resolve_dispute(&mut ext.balances, &mut ext.reputation, Origin::root(), 0, worker)
        .is_ok());

    assert_eq!(ext.reputation.reputations(worker).score, worker_rep_before + 200);
    assert_eq!(ext.reputation.reputations(poster).score, poster_rep_before - 500);
    assert_eq!(ext.reputation.reputations(worker).disputes_won, 1);
    assert_eq!(ext.reputation.reputations(poster).disputes_lost, 1);
    assert_eq!(ext.task_market.tasks(0).unwrap().status, TaskStatus::Resolved);
    assert_eq!(ext.balances.free_balance(worker), 11000);
    assert_eq!(ext.balances.reserved_balance(poster), 0);
}

#[test]
fn task_count_increments() {
    let mut ext = new_test_ext();
    assert_eq!(ext.task_market.task_count(), 0);
    assert_eq!(
        ext.task_market.post_task(
            &mut ext.balances,
            &mut ext.reputation,
            Origin::signed(1),
            b"Task 1".to_vec(),
            b"Description".to_vec(),
            1000,
            1000
        ),
        Ok(0)
    );
    assert_eq!(ext.task_market.task_count(), 1);
    assert_eq!(
        ext.task_market.post_task(
            &mut ext.balances,
            &mut ext.reputation,
            Origin::signed(1),
            b"Task 2".to_vec(),
            b"Description".to_vec(),
            1000,
            1000
        ),
        Ok(1)
    );
    assert_eq!(ext.task_market.task_count(), 2);
}

#[test]
fn resolve_for_poster_refunds_escrow() {
    let mut ext = new_test_ext();
    submitted(&mut ext);
    assert!(ext.task_market.dispute_task(Origin::signed(2), 0, b"Unpaid".to_vec()).is_ok());
    assert!(ext
        .task_market
        .resolve_dispute(&mut ext.balances, &mut ext.reputation, Origin::root(), 0, 1)
        .is_ok());
    assert_eq!(ext.balances.free_balance(1), 10000);
    assert_eq!(ext.balances.reserved_balance(1), 0);
    assert_eq!(ext.balances.free_balance(2), 10000);
    assert_eq!(ext.reputation.get_reputation(1), 5200);
    assert_eq!(ext.reputation.get_reputation(2), 4500);
}

#[test]
fn resolve_dispute_rejections() {
    let mut ext = new_test_ext();
    submitted(&mut ext);
    assert_eq!(
        ext.task_market.resolve_dispute(&mut ext.balances, &mut ext.reputation, Origin::root(), 0, 2),
        Err(Error::InvalidTaskStatus)
    );
    assert!(ext.task_market.dispute_task(Origin::signed(1), 0, b"No".to_vec()).is_ok());
    assert_eq!(
        ext.task_market.resolve_dispute(&mut ext.balances, &mut ext.reputation, Origin::signed(1), 0, 1),
        Err(Error::BadOrigin)
    );
    assert_eq!(
        ext.task_market.resolve_dispute(&mut ext.balances, &mut ext.reputation, Origin::root(), 0, 3),
        Err(Error::InvalidWinner)
    );
    assert_eq!(
        ext.task_market.resolve_dispute(&mut ext.balances, &mut ext.reputation, Origin::root(), 7, 2),
        Err(Error::TaskNotFound)
    );
    assert_eq!(ext.task_market.tasks(0).unwrap().status, TaskStatus::Disputed);
    assert_eq!(ext.reputation.get_reputation(1), 5000);
}

#[test]
fn dispute_rejections() {
    let mut ext = new_test_ext();
    assert!(post(&mut ext, 1, 1000).is_ok());
    assert!(bid(&mut ext, 2, 0).is_ok());
    assert!(ext.task_market.assign_task(Origin::signed(1), 0, 2).is_ok());
    assert_eq!(
        ext.task_market.dispute_task(Origin::signed(1), 0, b"Early".to_vec()),
        Err(Error::InvalidTaskStatus)
    );
    assert!(ext.task_market.submit_work(Origin::signed(2), 0, b"Proof".to_vec()).is_ok());
    assert_eq!(
        ext.task_market.dispute_task(Origin::signed(3), 0, b"Outsider".to_vec()),
        Err(Error::NotPoster)
    );
    assert_eq!(
        ext.task_market.dispute_task(Origin::signed(1), 0, vec![b'x'; 1025]),
        Err(Error::ReasonTooLong)
    );
    assert_eq!(ext.task_market.tasks(0).unwrap().status, TaskStatus::Submitted);
    assert!(ext.task_market.disputes(0).is_none());
}

#[test]
fn post_task_rejections() {
    let mut ext = new_test_ext();
    let mut try_post = |origin: Origin, title: Vec<u8>, description: Vec<u8>, reward: u64| {
        ext.task_market.post_task(
            &mut ext.balances,
            &mut ext.reputation,
            origin,
            title,
            description,
            reward,
            0,
        )
    };
    assert_eq!(try_post(Origin::root(), Vec::new(), Vec::new(), 1000), Err(Error::BadOrigin));
    assert_eq!(try_post(Origin::signed(1), vec![0; 129], Vec::new(), 1000), Err(Error::TitleTooLong));
    assert_eq!(
        try_post(Origin::signed(1), Vec::new(), vec![0; 1025], 1000),
        Err(Error::DescriptionTooLong)
    );
    assert_eq!(
        try_post(Origin::signed(1), Vec::new(), Vec::new(), 10001),
        Err(Error::InsufficientBalance)
    );
    assert_eq!(try_post(Origin::signed(9), Vec::new(), Vec::new(), 100), Err(Error::InsufficientBalance));
    assert_eq!(try_post(Origin::signed(1), vec![0; 128], vec![0; 1024], 100), Ok(0));
    assert_eq!(ext.balances.reserved_balance(1), 100);
    assert_eq!(ext.balances.free_balance(1), 9900);
}

fn small_market(max_bids_per_task: u32, max_active_tasks_per_account: u32) -> TaskMarket {
    TaskMarket::new(MarketConfig {
        max_title_length: 16,
        max_description_length: 16,
        max_proposal_length: 4,
        max_bids_per_task,
        min_task_reward: 10,
        max_active_tasks_per_account,
    })
}

fn funded() -> Balances {
    let mut balances = Balances::new();
    for who in 1..=4u64 {
        assert!(balances.set_free_balance(who, 1000).is_ok());
    }
    balances
}

#[test]
fn active_task_limit_counts_only_live_tasks() {
    let mut ext = new_test_ext();
    ext.task_market = small_market(5, 2);
    ext.balances = funded();
    for expected in 0..2u64 {
        assert_eq!(post(&mut ext, 1, 100), Ok(expected));
    }
    assert_eq!(ext.task_market.active_task_count(1), 2);
    assert_eq!(post(&mut ext, 1, 100), Err(Error::TooManyActiveTasks));
    assert!(ext.task_market.cancel_task(&mut ext.balances, Origin::signed(1), 0).is_ok());
    assert_eq!(ext.task_market.active_task_count(1), 1);
    assert_eq!(post(&mut ext, 1, 100), Ok(2));
    assert_eq!(post(&mut ext, 2, 100), Ok(3));
}

#[test]
fn bid_limits_and_rebids() {
    let mut ext = new_test_ext();
    ext.task_market = small_market(2, 5);
    ext.balances = funded();
    assert!(post(&mut ext, 1, 100).is_ok());
    assert_eq!(
        ext.task_market.bid_on_task(Origin::signed(2), 0, 50, b"12345".to_vec()),
        Err(Error::ProposalTooLong)
    );
    assert!(ext.task_market.bid_on_task(Origin::signed(2), 0, 50, b"a".to_vec()).is_ok());
    assert!(ext.task_market.bid_on_task(Origin::signed(3), 0, 60, b"b".to_vec()).is_ok());
    assert_eq!(ext.task_market.bid_count(0), 2);
    assert_eq!(
        ext.task_market.bid_on_task(Origin::signed(4), 0, 70, b"c".to_vec()),
        Err(Error::TooManyBids)
    );
    assert!(ext.task_market.bid_on_task(Origin::signed(2), 0, 40, b"d".to_vec()).is_ok());
    assert_eq!(ext.task_market.bid_count(0), 2);
    assert_eq!(ext.task_market.task_bids(0, 2).unwrap().amount, 40);
    assert_eq!(
        ext.task_market.bid_on_task(Origin::signed(2), 5, 40, b"d".to_vec()),
        Err(Error::TaskNotFound)
    );
}

#[test]
fn transitions_check_caller_and_status() {
    let mut ext = new_test_ext();
    assert!(post(&mut ext, 1, 1000).is_ok());
    assert!(bid(&mut ext, 2, 0).is_ok());
    assert_eq!(ext.task_market.assign_task(Origin::signed(1), 0, 3), Err(Error::BidNotFound));
    assert_eq!(ext.task_market.assign_task(Origin::signed(1), 4, 2), Err(Error::TaskNotFound));
    assert_eq!(
        ext.task_market.submit_work(Origin::signed(2), 0, b"p".to_vec()),
        Err(Error::NotAssignee)
    );
    assert!(ext.task_market.assign_task(Origin::signed(1), 0, 2).is_ok());
    assert!(bid(&mut ext, 3, 0).is_err());
    assert_eq!(
        ext.task_market.assign_task(Origin::signed(1), 0, 2),
        Err(Error::InvalidTaskStatus)
    );
    assert_eq!(
        ext.task_market.submit_work(Origin::signed(3), 0, b"p".to_vec()),
        Err(Error::NotAssignee)
    );
    assert_eq!(
        ext.task_market.approve_work(&mut ext.balances, &mut ext.reputation, Origin::signed(1), 0),
        Err(Error::InvalidTaskStatus)
    );
    assert!(ext.task_market.submit_work(Origin::signed(2), 0, b"p".to_vec()).is_ok());
    assert_eq!(
        ext.task_market.submit_work(Origin::signed(2), 0, b"p".to_vec()),
        Err(Error::InvalidTaskStatus)
    );
    assert_eq!(
        ext.task_market.approve_work(&mut ext.balances, &mut ext.reputation, Origin::signed(2), 0),
        Err(Error::NotPoster)
    );
    assert_eq!(
        ext.task_market.cancel_task(&mut ext.balances, Origin::signed(2), 0),
        Err(Error::NotPoster)
    );
    assert_eq!(ext.balances.reserved_balance(1), 1000);
    assert_eq!(ext.reputation.reputations(2).total_tasks_completed, 0);
}

#[test]
fn approval_pays_reward_not_bid_amount() {
    let mut ext = new_test_ext();
    submitted(&mut ext);
    assert!(ext
        .task_market
        .approve_work(&mut ext.balances, &mut ext.reputation, Origin::signed(1), 0)
        .is_ok());
    assert_eq!(ext.balances.free_balance(2), 11000);
    assert_eq!(
        ext.task_market.approve_work(&mut ext.balances, &mut ext.reputation, Origin::signed(1), 0),
        Err(Error::InvalidTaskStatus)
    );
    assert_eq!(ext.balances.free_balance(2), 11000);
}

#[test]
fn reserve_matches_escrow_of_live_tasks() {
    let mut ext = new_test_ext();
    assert_eq!(post(&mut ext, 1, 1000), Ok(0));
    assert_eq!(post(&mut ext, 1, 300), Ok(1));
    assert_eq!(post(&mut ext, 1, 200), Ok(2));
    assert_eq!(ext.balances.reserved_balance(1), 1500);
    assert!(ext.task_market.cancel_task(&mut ext.balances, Origin::signed(1), 1).is_ok());
    assert_eq!(ext.balances.reserved_balance(1), 1200);
    assert!(bid(&mut ext, 3, 2).is_ok());
    assert!(ext.task_market.assign_task(Origin::signed(1), 2, 3).is_ok());
    assert!(ext.task_market.submit_work(Origin::signed(3), 2, b"done".to_vec()).is_ok());
    assert!(ext
        .task_market
        .approve_work(&mut ext.balances, &mut ext.reputation, Origin::signed(1), 2)
        .is_ok());
    assert_eq!(ext.balances.reserved_balance(1), 1000);
    assert_eq!(ext.balances.free_balance(1), 8800);
    assert_eq!(ext.balances.free_balance(3), 10200);
    assert_eq!(ext.task_market.active_task_count(1), 1);
}
