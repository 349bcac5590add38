use cw_chess::coin::{validate_bet, validate_join_bet, validate_opponent_bet, Coin};
use cw_chess::contract::validate_fen_move;
use cw_chess::error::{ContractError, InvalidBetReason};
use cw_chess::game::{Match, MatchState, NextMove};
use cw_chess::ident::{match_id, validate_match_id};
use cw_chess::msg::{ExecuteMsg, InstantiateMsg, MessageInfo};
use cw_chess::state::ChessState;

const NATIVE_DENOM: &str = "untrn";
const BLOCK_HEIGHT: u64 = 12345;
const PLAYER_A: &str = "neutron1m9l358xunhhwds0568za49mzhvuxx9ux8xafx2";
const PLAYER_B: &str = "neutron10h9stc5v6ntgeygf5xf945njqq5h32r54rf7kf";

fn coin(amount: u128) -> Coin {
    Coin { amount, denom: NATIVE_DENOM.to_string() }
}

fn coin_of(amount: u128, denom: &str) -> Coin {
    Coin { amount, denom: denom.to_string() }
}

fn info(sender: &str, funds: Vec<Coin>) -> MessageInfo {
    MessageInfo { sender: sender.to_string(), funds }
}

fn setup() -> ChessState {
    let msg = InstantiateMsg { min_bet: coin(10) };
    let (state, _res) = cw_chess::contract::instantiate(info("admin", vec![]), msg);
    state
}

fn create_vs(state: &mut ChessState, challenger: &str, opponent: &str) -> Vec<u8> {
    let nonce = state.next_nonce;
    let msg = ExecuteMsg::CreateMatch { opponent: opponent.to_string() };
    state
        .execute(BLOCK_HEIGHT, info(challenger, vec![coin(10)]), msg, true)
        .unwrap();
    match_id(&challenger.to_string(), &opponent.to_string(), nonce)
}

#[test]
fn derive_is_deterministic_and_collision_free_in_practice() {
    let a = PLAYER_A.to_string();
    let b = PLAYER_B.to_string();

    let id1 = match_id(&a, &b, 0);
    let id2 = match_id(&a, &b, 0);
    assert_eq!(id1, id2);
    assert_eq!(32, id1.len());

    // Distinct triples: a different nonce, swapped players, another pair.
    let ids = vec![
        match_id(&a, &b, 0),
        match_id(&a, &b, 1),
        match_id(&a, &b, 2),
        match_id(&b, &a, 0),
        match_id(&a, &a, 0),
        match_id(&b, &b, 7),
    ];
    for i in 0..ids.len() {
        for j in 0..ids.len() {
            if i != j {
                assert_ne!(ids[i], ids[j]);
            }
        }
    }
}

#[test]
fn self_challenge_always_fails_whatever_the_funds() {
    let funds_variants: Vec<Vec<Coin>> = vec![
        vec![],
        vec![coin(10)],
        vec![coin(1000)],
        vec![coin(10), coin(10)],
        vec![coin_of(10, "other")],
        vec![coin(u128::MAX)],
    ];
    for funds in funds_variants {
        let mut state = setup();
        let msg = ExecuteMsg::CreateMatch { opponent: PLAYER_A.to_string() };
        let err = state
            .execute(BLOCK_HEIGHT, info(PLAYER_A, funds), msg, true)
            .unwrap_err();
        assert_eq!(ContractError::InvalidOpponent, err);
        assert_eq!(0, state.next_nonce);
    }
}

#[test]
fn create_rejects_invalid_address_and_bad_bets() {
    let mut state = setup();

    let msg = ExecuteMsg::CreateMatch { opponent: PLAYER_B.to_string() };
    let err = state
        .execute(BLOCK_HEIGHT, info(PLAYER_A, vec![coin(10)]), msg, false)
        .unwrap_err();
    assert_eq!(ContractError::InvalidAddress, err);

    let cases: Vec<(Vec<Coin>, InvalidBetReason)> = vec![
        (vec![], InvalidBetReason::MissingBet),
        (vec![coin(10), coin(10)], InvalidBetReason::TooManyCoins),
        (vec![coin_of(10, "uatom")], InvalidBetReason::WrongDenom),
        (vec![coin(9)], InvalidBetReason::AmountTooLow),
    ];
    for (funds, reason) in cases {
        let msg = ExecuteMsg::CreateMatch { opponent: PLAYER_B.to_string() };
        let err = state
            .execute(BLOCK_HEIGHT, info(PLAYER_A, funds), msg, true)
            .unwrap_err();
        assert_eq!(ContractError::InvalidBet { reason }, err);
        assert_eq!(Err(ContractError::UnknownMatch), state.lookup_match(&match_id(
            &PLAYER_A.to_string(),
            &PLAYER_B.to_string(),
            0,
        )));
    }
}

#[test]
fn join_with_differing_stake_fails_and_changes_nothing() {
    let mut state = setup();
    let id = create_vs(&mut state, PLAYER_A, PLAYER_B);
    let before = state.lookup_match(&id).unwrap();

    // More than the challenger's stake: rejected as InvalidAmount.
    let err = state
        .execute(
            BLOCK_HEIGHT,
            info(PLAYER_B, vec![coin(11)]),
            ExecuteMsg::JoinMatch { match_id: hex::encode(&id) },
            true,
        )
        .unwrap_err();
    assert_eq!(
        ContractError::InvalidBet { reason: InvalidBetReason::InvalidAmount },
        err
    );

    // Less than the challenger's stake: also rejected as InvalidAmount —
    // the joining stake must equal the challenger's exactly, neither more
    // nor less.
    let err = state
        .execute(
            BLOCK_HEIGHT,
            info(PLAYER_B, vec![coin(9)]),
            ExecuteMsg::JoinMatch { match_id: hex::encode(&id) },
            true,
        )
        .unwrap_err();
    assert_eq!(
        ContractError::InvalidBet { reason: InvalidBetReason::InvalidAmount },
        err
    );

    // A different denomination: rejected as WrongDenom.
    let err = state
        .execute(
            BLOCK_HEIGHT,
            info(PLAYER_B, vec![coin_of(10, "uatom")]),
            ExecuteMsg::JoinMatch { match_id: hex::encode(&id) },
            true,
        )
        .unwrap_err();
    assert_eq!(
        ContractError::InvalidBet { reason: InvalidBetReason::WrongDenom },
        err
    );

    let after = state.lookup_match(&id).unwrap();
    assert_eq!(before, after);
    assert_eq!(MatchState::AwaitingOpponent, after.state);
}

#[test]
fn join_by_wrong_caller_fails() {
    let mut state = setup();
    let id = create_vs(&mut state, PLAYER_A, PLAYER_B);
    let err = state
        .execute(
            BLOCK_HEIGHT,
            info("neutron1someoneelse", vec![coin(10)]),
            ExecuteMsg::JoinMatch { match_id: hex::encode(&id) },
            true,
        )
        .unwrap_err();
    assert_eq!(ContractError::InvalidOpponent, err);
}

#[test]
fn abort_requires_creator_and_awaiting_state() {
    let mut state = setup();
    let id = create_vs(&mut state, PLAYER_A, PLAYER_B);

    let err = state
        .execute(
            BLOCK_HEIGHT,
            info(PLAYER_B, vec![]),
            ExecuteMsg::AbortMatch { match_id: hex::encode(&id) },
            true,
        )
        .unwrap_err();
    assert_eq!(ContractError::NotMatchCreator, err);

    state
        .execute(
            BLOCK_HEIGHT,
            info(PLAYER_B, vec![coin(10)]),
            ExecuteMsg::JoinMatch { match_id: hex::encode(&id) },
            true,
        )
        .unwrap();

    let err = state
        .execute(
            BLOCK_HEIGHT,
            info(PLAYER_A, vec![]),
            ExecuteMsg::AbortMatch { match_id: hex::encode(&id) },
            true,
        )
        .unwrap_err();
    assert_eq!(ContractError::NotAwaitingOpponent, err);

    // The match is untouched by the failed aborts.
    assert!(state.lookup_match(&id).is_ok());
}

#[test]
fn unknown_and_malformed_identifiers_are_rejected() {
    let mut state = setup();

    let err = state
        .execute(
            BLOCK_HEIGHT,
            info(PLAYER_A, vec![]),
            ExecuteMsg::AbortMatch { match_id: "zz".repeat(32) },
            true,
        )
        .unwrap_err();
    assert_eq!(ContractError::InvalidMatchId, err);

    let err = state
        .execute(
            BLOCK_HEIGHT,
            info(PLAYER_A, vec![]),
            ExecuteMsg::AbortMatch { match_id: "ab".to_string() },
            true,
        )
        .unwrap_err();
    assert_eq!(ContractError::InvalidMatchId, err);

    let err = state
        .execute(
            BLOCK_HEIGHT,
            info(PLAYER_A, vec![]),
            ExecuteMsg::AbortMatch { match_id: "ab".repeat(32) },
            true,
        )
        .unwrap_err();
    assert_eq!(ContractError::UnknownMatch, err);
}

#[test]
fn move_before_join_and_after_finish_are_rejected() {
    let mut state = setup();
    let id = create_vs(&mut state, PLAYER_A, PLAYER_B);

    let err = state
        .execute(
            BLOCK_HEIGHT,
            info(PLAYER_A, vec![]),
            ExecuteMsg::MakeMove {
                match_id: hex::encode(&id),
                move_fen: "e2e4".to_string(),
            },
            true,
        )
        .unwrap_err();
    assert_eq!(ContractError::StillAwaitingOpponent, err);

    // A record in a terminal state is never playable. Such a record cannot
    // arise through the operations — terminal matches are removed at once —
    // so build one directly.
    let finished = Match::new_ext(
        PLAYER_A.to_string(),
        PLAYER_B.to_string(),
        MatchState::Won,
        9u64,
        0u64,
        0u64,
        coin(10),
    );
    let fake_id = vec![7u8; 32];
    state.matches.push((fake_id.clone(), finished));
    let err = state
        .execute(
            BLOCK_HEIGHT,
            info(PLAYER_A, vec![]),
            ExecuteMsg::MakeMove {
                match_id: hex::encode(&fake_id),
                move_fen: "e2e4".to_string(),
            },
            true,
        )
        .unwrap_err();
    assert_eq!(ContractError::MatchAlreadyFinished, err);
}

#[test]
fn corrupt_board_is_reported_as_board_encoding_error() {
    let mut state = setup();
    let broken = Match::new_ext(
        PLAYER_A.to_string(),
        PLAYER_B.to_string(),
        MatchState::OnGoing(NextMove::Whites),
        3u64,
        0u64,
        0u64,
        coin(10),
    )
    .set_board_state("not a board".to_string());
    let fake_id = vec![9u8; 32];
    state.matches.push((fake_id.clone(), broken));
    let err = state
        .execute(
            BLOCK_HEIGHT,
            info(PLAYER_A, vec![]),
            ExecuteMsg::MakeMove {
                match_id: hex::encode(&fake_id),
                move_fen: "e2e4".to_string(),
            },
            true,
        )
        .unwrap_err();
    assert_eq!(ContractError::InvalidBoardEncoding, err);
}

#[test]
fn identical_create_twice_yields_two_distinct_matches() {
    let mut state = setup();
    let id1 = create_vs(&mut state, PLAYER_A, PLAYER_B);
    let id2 = create_vs(&mut state, PLAYER_A, PLAYER_B);

    assert_ne!(id1, id2);
    assert_eq!(2, state.next_nonce);

    let m1 = state.lookup_match(&id1).unwrap();
    let m2 = state.lookup_match(&id2).unwrap();
    assert_eq!(0, m1.nonce);
    assert_eq!(1, m2.nonce);
    assert_eq!(Some(id1), state.match_id_by_nonce(0));
    assert_eq!(Some(id2), state.match_id_by_nonce(1));
}

#[test]
fn board_encoding_round_trips_for_reachable_boards() {
    let start = Match::new(
        PLAYER_A.to_string(),
        PLAYER_B.to_string(),
        0u64,
        coin(10),
    )
    .board();
    assert_eq!(
        "rnbqkbnr/pppppppp/8/8/8/8/PPPPPPPP/RNBQKBNR w KQkq - 0 1",
        start
    );
    assert_eq!(Ok(start.clone()), Match::decode_board(&start));

    let after_push = "rnbqkbnr/pppppppp/8/8/4P3/8/PPPP1PPP/RNBQKBNR b KQkq e3 0 1";
    assert_eq!(
        Ok(after_push.to_string()),
        Match::decode_board(after_push)
    );

    assert_eq!(
        Err(ContractError::InvalidBoardEncoding),
        Match::decode_board("rubbish")
    );
}

#[test]
fn rendered_identifiers_decode_back() {
    let id = match_id(&PLAYER_A.to_string(), &PLAYER_B.to_string(), 4);
    let text = hex::encode(&id);
    assert_eq!(64, text.len());
    assert_eq!(Ok(id.clone()), validate_match_id(&text));
    // Uppercase digits are accepted too, as the substrate's clients send both.
    assert_eq!(Ok(id), validate_match_id(&text.to_uppercase()));
    assert_eq!(
        Err(ContractError::InvalidMatchId),
        validate_match_id("0123")
    );
}

#[test]
fn stake_validation_matches_the_policy() {
    let min = coin(10);
    assert_eq!(
        Err(ContractError::InvalidBet { reason: InvalidBetReason::MissingBet }),
        validate_bet(&vec![], &min)
    );
    assert_eq!(
        Err(ContractError::InvalidBet { reason: InvalidBetReason::TooManyCoins }),
        validate_bet(&vec![coin(10), coin(10)], &min)
    );
    assert_eq!(
        Err(ContractError::InvalidBet { reason: InvalidBetReason::WrongDenom }),
        validate_bet(&vec![coin_of(10, "uatom")], &min)
    );
    assert_eq!(
        Err(ContractError::InvalidBet { reason: InvalidBetReason::AmountTooLow }),
        validate_bet(&vec![coin(9)], &min)
    );
    assert_eq!(Ok(coin(25)), validate_bet(&vec![coin(25)], &min));

    assert_eq!(Ok(()), validate_opponent_bet(10, 10));
    assert_eq!(
        Err(ContractError::InvalidBet { reason: InvalidBetReason::InvalidAmount }),
        validate_opponent_bet(10, 11)
    );

    // The join check demands exact equality of the amount, in both directions.
    let stake = coin(10);
    assert_eq!(Ok(coin(10)), validate_join_bet(&vec![coin(10)], &stake));
    assert_eq!(
        Err(ContractError::InvalidBet { reason: InvalidBetReason::InvalidAmount }),
        validate_join_bet(&vec![coin(9)], &stake)
    );
    assert_eq!(
        Err(ContractError::InvalidBet { reason: InvalidBetReason::InvalidAmount }),
        validate_join_bet(&vec![coin(11)], &stake)
    );
    assert_eq!(
        Err(ContractError::InvalidBet { reason: InvalidBetReason::WrongDenom }),
        validate_join_bet(&vec![coin_of(10, "uatom")], &stake)
    );
    assert_eq!(
        Err(ContractError::InvalidBet { reason: InvalidBetReason::MissingBet }),
        validate_join_bet(&vec![], &stake)
    );
    assert_eq!(
        Err(ContractError::InvalidBet { reason: InvalidBetReason::TooManyCoins }),
        validate_join_bet(&vec![coin(10), coin(10)], &stake)
    );

    assert_eq!(Ok(()), validate_fen_move("e2e4"));
    assert_eq!(
        Err(ContractError::InvalidMoveEncoding),
        validate_fen_move("e2e4q")
    );
    assert_eq!(
        Err(ContractError::InvalidMoveEncoding),
        validate_fen_move("e2")
    );
}

#[test]
fn drawn_match_refunds_both_sides_and_is_removed() {
    // One move before a textbook stalemate: with the black king cornered on
    // a8, white's queen move to c7 leaves black no legal reply and no check.
    let mut state = setup();
    let id = create_vs(&mut state, PLAYER_A, PLAYER_B);
    state
        .execute(
            BLOCK_HEIGHT,
            info(PLAYER_B, vec![coin(10)]),
            ExecuteMsg::JoinMatch { match_id: hex::encode(&id) },
            true,
        )
        .unwrap();

    let i = (0..state.matches.len())
        .find(|&k| state.matches[k].0 == id)
        .unwrap();
    let staged = state.matches.remove(i).1.set_board_state("k7/8/8/8/8/8/8/2Q4K w - - 0 1".to_string());
    state.matches.push((id.clone(), staged));

    let res = state
        .execute(
            BLOCK_HEIGHT,
            info(PLAYER_A, vec![]),
            ExecuteMsg::MakeMove {
                match_id: hex::encode(&id),
                move_fen: "c1c7".to_string(),
            },
            true,
        )
        .unwrap();

    assert_eq!(2, res.events.len());
    assert_eq!("match_drawn", res.events[1].ty);
    assert_eq!(2, res.messages.len());
    assert_eq!(PLAYER_A, res.messages[0].to_address);
    assert_eq!(vec![coin(10)], res.messages[0].amount);
    assert_eq!(PLAYER_B, res.messages[1].to_address);
    assert_eq!(vec![coin(10)], res.messages[1].amount);
    assert_eq!(Err(ContractError::UnknownMatch), state.lookup_match(&id));
}
