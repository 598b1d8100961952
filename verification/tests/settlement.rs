use snzup_subscription::{
    calculate_competition_bonus, initialize, send_bonus_to_winners, set_owner, set_status,
    set_winners_list, BonusSent, ChallengeClosed, CommisionAndBonusCalculated,
    CommisionAndBonusCalculation, ErrorCode, Identity, Record, State, Status, Transfer,
};

fn id(n: u8) -> Identity {
    Identity::new([n; 32])
}

fn plain(n: u8, lamports: u64) -> Record {
    Record { key: id(n), owner: Identity::system_program(), lamports }
}

fn owner() -> Identity {
    id(1)
}

fn treasury() -> Identity {
    id(2)
}

fn challenge(commission: u8, winners: Vec<Identity>) -> State {
    let (mut state, _) = initialize(owner(), 254, 77, 50, commission, treasury()).unwrap();
    set_winners_list(&mut state, &owner(), winners).unwrap();
    state
}

#[test]
fn split_of_one_thousand_at_ten_percent_among_three() {
    assert_eq!(calculate_competition_bonus(1000, 10, 3), Ok((100, 900, 300)));
}

#[test]
fn split_of_one_thousand_and_one_at_ten_percent_among_three() {
    assert_eq!(calculate_competition_bonus(1001, 10, 3), Ok((100, 901, 300)));
}

#[test]
fn split_without_winners_gives_no_share() {
    assert_eq!(calculate_competition_bonus(1000, 25, 0), Ok((250, 750, 0)));
}

#[test]
fn split_rounds_commission_down() {
    assert_eq!(calculate_competition_bonus(199, 1, 2), Ok((1, 198, 99)));
    assert_eq!(calculate_competition_bonus(99, 1, 2), Ok((0, 99, 49)));
}

#[test]
fn split_at_extreme_rates() {
    assert_eq!(calculate_competition_bonus(1000, 0, 4), Ok((0, 1000, 250)));
    assert_eq!(calculate_competition_bonus(1000, 100, 4), Ok((1000, 0, 0)));
}

#[test]
fn split_of_the_largest_pool_does_not_overflow() {
    let all = u64::MAX;
    assert_eq!(
        calculate_competition_bonus(all, 50, 1),
        Ok((all / 2, all - all / 2, all - all / 2))
    );
    assert_eq!(calculate_competition_bonus(all, 100, 7), Ok((all, 0, 0)));
}

#[test]
fn split_refuses_rate_above_one_hundred() {
    assert_eq!(calculate_competition_bonus(1000, 101, 3), Err(ErrorCode::InvalidCommissionRate));
}

#[test]
fn settlement_of_one_thousand_pays_everything_out() {
    let mut state = challenge(10, vec![id(10), id(11), id(12)]);
    let counter = state.op_counter;
    let mut pool = 1000 + 40;
    let mut wallet = plain(2, 5);
    let mut payees = vec![plain(10, 1), plain(11, 2), plain(12, 3)];
    let done =
        send_bonus_to_winners(&mut state, &owner(), &mut pool, 40, &mut wallet, &mut payees, 99)
            .unwrap();
    assert_eq!(
        done.calculation,
        CommisionAndBonusCalculation { balance: 1000, challenge_balance: 900, timestamp: 99 }
    );
    assert_eq!(
        done.calculated,
        CommisionAndBonusCalculated { commission: 100, bonus: 300, timestamp: 99 }
    );
    assert_eq!(done.leftover, 0);
    assert_eq!(
        done.bonuses,
        vec![
            BonusSent { challenge_id: 77, subscriber: id(10), timestamp: 99 },
            BonusSent { challenge_id: 77, subscriber: id(11), timestamp: 99 },
            BonusSent { challenge_id: 77, subscriber: id(12), timestamp: 99 },
        ]
    );
    assert_eq!(done.closed, ChallengeClosed { challenge_id: 77, timestamp: 99 });
    assert_eq!(
        done.transfers,
        vec![
            Transfer { to: treasury(), amount: 100 },
            Transfer { to: id(10), amount: 300 },
            Transfer { to: id(11), amount: 300 },
            Transfer { to: id(12), amount: 300 },
        ]
    );
    assert_eq!(pool, 40);
    assert_eq!(wallet, plain(2, 105));
    assert_eq!(payees, vec![plain(10, 301), plain(11, 302), plain(12, 303)]);
    assert!(state.paid);
    assert_eq!(state.status, Status::Closed);
    assert_eq!(state.op_counter, counter + 4);
}

#[test]
fn settlement_of_one_thousand_and_one_sends_remainder_to_treasury() {
    let mut state = challenge(10, vec![id(10), id(11), id(12)]);
    let mut pool = 1001;
    let mut wallet = plain(2, 0);
    let mut payees = vec![plain(10, 0), plain(11, 0), plain(12, 0)];
    let done =
        send_bonus_to_winners(&mut state, &owner(), &mut pool, 0, &mut wallet, &mut payees, 1)
            .unwrap();
    assert_eq!(done.calculation.balance, 1001);
    assert_eq!(done.calculation.challenge_balance, 901);
    assert_eq!(done.calculated.commission, 100);
    assert_eq!(done.calculated.bonus, 300);
    assert_eq!(done.leftover, 1);
    assert_eq!(
        done.transfers,
        vec![
            Transfer { to: treasury(), amount: 100 },
            Transfer { to: id(10), amount: 300 },
            Transfer { to: id(11), amount: 300 },
            Transfer { to: id(12), amount: 300 },
            Transfer { to: treasury(), amount: 1 },
        ]
    );
    assert_eq!(pool, 0);
    assert_eq!(wallet.lamports, 101);
    assert_eq!(payees, vec![plain(10, 300), plain(11, 300), plain(12, 300)]);
}

#[test]
fn settlement_conserves_the_distributable_balance() {
    for available in [1u64, 2, 3, 7, 99, 100, 101, 999, 12345] {
        for rate in [0u8, 1, 33, 50, 99, 100] {
            for n in 0u8..=4 {
                let winners: Vec<Identity> = (0..n).map(|k| id(10 + k)).collect();
                let mut state = challenge(rate, winners);
                let mut pool = available + 7;
                let mut wallet = plain(2, 0);
                let mut payees: Vec<Record> = (0..n).map(|k| plain(10 + k, 0)).collect();
                let done = send_bonus_to_winners(
                    &mut state,
                    &owner(),
                    &mut pool,
                    7,
                    &mut wallet,
                    &mut payees,
                    0,
                )
                .unwrap();
                let commission = done.calculated.commission;
                let bonus = done.calculated.bonus;
                assert_eq!(commission + bonus * n as u64 + done.leftover, available);
                assert_eq!(commission + done.calculation.challenge_balance, available);
                if n > 0 {
                    assert!(done.leftover < n as u64);
                } else {
                    assert_eq!(done.leftover, available - commission);
                }
                let moved: u64 = done.transfers.iter().map(|t| t.amount).sum();
                assert_eq!(moved, available);
                let received: u64 = payees.iter().map(|p| p.lamports).sum();
                assert_eq!(received + wallet.lamports, available);
                assert_eq!(pool, 7);
            }
        }
    }
}

#[test]
fn settlement_without_winners_sends_everything_to_treasury() {
    let mut state = challenge(10, vec![]);
    let counter = state.op_counter;
    let mut pool = 1000;
    let mut wallet = plain(2, 0);
    let mut payees = vec![];
    let done =
        send_bonus_to_winners(&mut state, &owner(), &mut pool, 0, &mut wallet, &mut payees, 1)
            .unwrap();
    assert_eq!(done.calculated.commission, 100);
    assert_eq!(done.calculated.bonus, 0);
    assert_eq!(done.leftover, 900);
    assert!(done.bonuses.is_empty());
    assert_eq!(
        done.transfers,
        vec![Transfer { to: treasury(), amount: 100 }, Transfer { to: treasury(), amount: 900 }]
    );
    assert_eq!(wallet.lamports, 1000);
    assert_eq!(pool, 0);
    assert_eq!(state.op_counter, counter + 1);
}

#[test]
fn settlement_with_shares_of_nothing_reports_no_bonus() {
    let mut state = challenge(0, vec![id(10), id(11), id(12)]);
    let mut pool = 2;
    let mut wallet = plain(2, 0);
    let mut payees = vec![plain(10, 5), plain(11, 5), plain(12, 5)];
    let done =
        send_bonus_to_winners(&mut state, &owner(), &mut pool, 0, &mut wallet, &mut payees, 1)
            .unwrap();
    assert_eq!(done.calculated.bonus, 0);
    assert_eq!(done.leftover, 2);
    assert!(done.bonuses.is_empty());
    assert_eq!(done.transfers, vec![Transfer { to: treasury(), amount: 2 }]);
    assert_eq!(payees, vec![plain(10, 5), plain(11, 5), plain(12, 5)]);
    assert_eq!(wallet.lamports, 2);
    assert!(state.paid);
}

#[test]
fn second_settlement_is_refused_and_moves_nothing() {
    let mut state = challenge(10, vec![id(10)]);
    let mut pool = 1000;
    let mut wallet = plain(2, 0);
    let mut payees = vec![plain(10, 0)];
    send_bonus_to_winners(&mut state, &owner(), &mut pool, 0, &mut wallet, &mut payees, 1).unwrap();
    let settled = state.clone();
    let mut pool = 500;
    let wallet_before = wallet;
    let payees_before = payees.clone();
    assert_eq!(
        send_bonus_to_winners(&mut state, &owner(), &mut pool, 0, &mut wallet, &mut payees, 2),
        Err(ErrorCode::InvalidStatus)
    );
    assert_eq!(state, settled);
    assert_eq!(pool, 500);
    assert_eq!(wallet, wallet_before);
    assert_eq!(payees, payees_before);
    assert!(state.paid);
}

#[test]
fn settlement_by_listed_administrator_is_accepted() {
    let mut state = challenge(10, vec![id(10)]);
    set_owner(&mut state, &owner(), id(5)).unwrap();
    let mut pool = 100;
    let mut wallet = plain(2, 0);
    let mut payees = vec![plain(10, 0)];
    assert!(
        send_bonus_to_winners(&mut state, &id(5), &mut pool, 0, &mut wallet, &mut payees, 1).is_ok()
    );
}

#[test]
fn settlement_by_stranger_is_unauthorized() {
    let mut state = challenge(10, vec![id(10)]);
    let before = state.clone();
    let mut pool = 100;
    let mut wallet = plain(2, 0);
    let mut payees = vec![plain(10, 0)];
    assert_eq!(
        send_bonus_to_winners(&mut state, &id(66), &mut pool, 0, &mut wallet, &mut payees, 1),
        Err(ErrorCode::Unauthorized)
    );
    assert_eq!(state, before);
    assert_eq!(pool, 100);
}

#[test]
fn settlement_of_canceled_challenge_is_refused() {
    let mut state = challenge(10, vec![id(10)]);
    set_status(&mut state, &owner(), 3).unwrap();
    let mut pool = 100;
    let mut wallet = plain(2, 0);
    let mut payees = vec![plain(10, 0)];
    assert_eq!(
        send_bonus_to_winners(&mut state, &owner(), &mut pool, 0, &mut wallet, &mut payees, 1),
        Err(ErrorCode::InvalidStatus)
    );
    assert!(!state.paid);
}

#[test]
fn settlement_to_another_treasury_is_refused() {
    let mut state = challenge(10, vec![id(10)]);
    let mut pool = 100;
    let mut wallet = plain(3, 0);
    let mut payees = vec![plain(10, 0)];
    assert_eq!(
        send_bonus_to_winners(&mut state, &owner(), &mut pool, 0, &mut wallet, &mut payees, 1),
        Err(ErrorCode::InvalidInput)
    );
    assert!(!state.paid);
}

#[test]
fn settlement_of_pool_at_reserve_is_refused() {
    let mut state = challenge(10, vec![id(10)]);
    let mut wallet = plain(2, 0);
    let mut payees = vec![plain(10, 0)];
    let mut pool = 40;
    assert_eq!(
        send_bonus_to_winners(&mut state, &owner(), &mut pool, 40, &mut wallet, &mut payees, 1),
        Err(ErrorCode::InsufficientContractBalance)
    );
    let mut pool = 39;
    assert_eq!(
        send_bonus_to_winners(&mut state, &owner(), &mut pool, 40, &mut wallet, &mut payees, 1),
        Err(ErrorCode::InsufficientContractBalance)
    );
    assert!(!state.paid);
}

#[test]
fn settlement_with_rate_out_of_range_is_refused() {
    let mut state = challenge(10, vec![id(10)]);
    state.commission = 101;
    let mut pool = 100;
    let mut wallet = plain(2, 0);
    let mut payees = vec![plain(10, 0)];
    assert_eq!(
        send_bonus_to_winners(&mut state, &owner(), &mut pool, 0, &mut wallet, &mut payees, 1),
        Err(ErrorCode::InvalidCommissionRate)
    );
    assert!(!state.paid);
}

#[test]
fn settlement_with_too_few_records_is_refused() {
    let mut state = challenge(10, vec![id(10), id(11)]);
    let mut pool = 100;
    let mut wallet = plain(2, 0);
    let mut payees = vec![plain(10, 0)];
    assert_eq!(
        send_bonus_to_winners(&mut state, &owner(), &mut pool, 0, &mut wallet, &mut payees, 1),
        Err(ErrorCode::MissingWinnerAccount)
    );
    let mut payees = vec![plain(10, 0), plain(11, 0), plain(12, 0)];
    assert_eq!(
        send_bonus_to_winners(&mut state, &owner(), &mut pool, 0, &mut wallet, &mut payees, 1),
        Err(ErrorCode::MissingWinnerAccount)
    );
    assert_eq!(pool, 100);
    assert_eq!(wallet.lamports, 0);
}

#[test]
fn settlement_with_misplaced_record_is_refused_before_any_payment() {
    let mut state = challenge(10, vec![id(10), id(11)]);
    let before = state.clone();
    let mut pool = 100;
    let mut wallet = plain(2, 0);
    let mut payees = vec![plain(11, 0), plain(10, 0)];
    assert_eq!(
        send_bonus_to_winners(&mut state, &owner(), &mut pool, 0, &mut wallet, &mut payees, 1),
        Err(ErrorCode::InvalidWinnerAddress)
    );
    assert_eq!(state, before);
    assert_eq!(pool, 100);
    assert_eq!(wallet, plain(2, 0));
    assert_eq!(payees, vec![plain(11, 0), plain(10, 0)]);
}

#[test]
fn settlement_into_record_held_by_a_program_is_refused() {
    let mut state = challenge(10, vec![id(10), id(11)]);
    let mut pool = 100;
    let mut wallet = plain(2, 0);
    let held = Record { key: id(11), owner: id(200), lamports: 0 };
    let mut payees = vec![plain(10, 0), held];
    assert_eq!(
        send_bonus_to_winners(&mut state, &owner(), &mut pool, 0, &mut wallet, &mut payees, 1),
        Err(ErrorCode::InvalidWinnerAddress)
    );
    assert_eq!(pool, 100);
    assert_eq!(payees, vec![plain(10, 0), held]);
    assert!(!state.paid);
}

#[test]
fn settlement_that_would_overflow_a_winner_changes_nothing() {
    let mut state = challenge(10, vec![id(10), id(11)]);
    let before = state.clone();
    let mut pool = 1000;
    let mut wallet = plain(2, 0);
    let mut payees = vec![plain(10, 0), plain(11, u64::MAX - 449)];
    assert_eq!(
        send_bonus_to_winners(&mut state, &owner(), &mut pool, 0, &mut wallet, &mut payees, 1),
        Err(ErrorCode::LamportMathError)
    );
    assert_eq!(state, before);
    assert_eq!(pool, 1000);
    assert_eq!(wallet, plain(2, 0));
    assert_eq!(payees, vec![plain(10, 0), plain(11, u64::MAX - 449)]);
    payees[1].lamports = u64::MAX - 450;
    assert!(
        send_bonus_to_winners(&mut state, &owner(), &mut pool, 0, &mut wallet, &mut payees, 1)
            .is_ok()
    );
    assert_eq!(payees[1].lamports, u64::MAX);
}

#[test]
fn settlement_that_would_overflow_the_treasury_changes_nothing() {
    let mut state = challenge(10, vec![id(10), id(11), id(12)]);
    let mut pool = 1001;
    let mut wallet = plain(2, u64::MAX - 100);
    let mut payees = vec![plain(10, 0), plain(11, 0), plain(12, 0)];
    assert_eq!(
        send_bonus_to_winners(&mut state, &owner(), &mut pool, 0, &mut wallet, &mut payees, 1),
        Err(ErrorCode::LamportMathError)
    );
    assert_eq!(pool, 1001);
    assert_eq!(wallet.lamports, u64::MAX - 100);
    assert_eq!(payees, vec![plain(10, 0), plain(11, 0), plain(12, 0)]);
    assert!(!state.paid);
}

#[test]
fn settlement_counter_saturates() {
    let mut state = challenge(10, vec![id(10), id(11)]);
    state.op_counter = u64::MAX - 1;
    let mut pool = 100;
    let mut wallet = plain(2, 0);
    let mut payees = vec![plain(10, 0), plain(11, 0)];
    send_bonus_to_winners(&mut state, &owner(), &mut pool, 0, &mut wallet, &mut payees, 1).unwrap();
    assert_eq!(state.op_counter, u64::MAX);
}

#[test]
fn settlement_of_closed_but_unpaid_challenge_is_accepted() {
    let mut state = challenge(10, vec![id(10)]);
    set_status(&mut state, &owner(), 2).unwrap();
    let mut pool = 100;
    let mut wallet = plain(2, 0);
    let mut payees = vec![plain(10, 0)];
    assert!(
        send_bonus_to_winners(&mut state, &owner(), &mut pool, 0, &mut wallet, &mut payees, 1)
            .is_ok()
    );
    assert!(state.paid);
}

#[test]
fn treasury_that_is_also_a_winner_is_paid_at_both_places() {
    let mut state = challenge(10, vec![treasury(), id(11)]);
    let mut pool = 1001;
    let mut wallet = plain(2, 0);
    let mut payees = vec![plain(2, 0), plain(11, 0)];
    let done =
        send_bonus_to_winners(&mut state, &owner(), &mut pool, 0, &mut wallet, &mut payees, 1)
            .unwrap();
    assert_eq!(done.calculated.bonus, 450);
    assert_eq!(done.leftover, 1);
    assert_eq!(wallet.lamports, 101);
    assert_eq!(payees, vec![plain(2, 450), plain(11, 450)]);
    assert_eq!(
        done.transfers,
        vec![
            Transfer { to: treasury(), amount: 100 },
            Transfer { to: treasury(), amount: 450 },
            Transfer { to: id(11), amount: 450 },
            Transfer { to: treasury(), amount: 1 },
        ]
    );
    assert_eq!(pool, 0);
}
