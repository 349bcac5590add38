use cw_chess::coin::Coin;
use cw_chess::error::ContractError;
use cw_chess::game::{Match, MatchState, NextMove};
use cw_chess::ident::match_id;
use cw_chess::msg::{ExecuteMsg, InstantiateMsg, MessageInfo};
use cw_chess::response::{BankTransfer, Event, Response};
use cw_chess::state::ChessState;

const NATIVE_DENOM: &str = "untrn";
const BLOCK_HEIGHT: u64 = 12345;
const PLAYER_A: &str = "neutron1m9l358xunhhwds0568za49mzhvuxx9ux8xafx2";
const PLAYER_B: &str = "neutron10h9stc5v6ntgeygf5xf945njqq5h32r54rf7kf";

fn coin(amount: u128) -> Coin {
    Coin { amount, denom: NATIVE_DENOM.to_string() }
}

fn info(sender: &str, funds: Vec<Coin>) -> MessageInfo {
    MessageInfo { sender: sender.to_string(), funds }
}

fn attr(key: &str, value: &str) -> (String, String) {
    (key.to_string(), value.to_string())
}

fn setup() -> ChessState {
    let msg = InstantiateMsg { min_bet: coin(10) };
    let (state, _res) = cw_chess::contract::instantiate(info("admin", vec![]), msg);
    state
}

fn create(state: &mut ChessState) -> Response {
    let msg = ExecuteMsg::CreateMatch { opponent: PLAYER_B.to_string() };
    state
        .execute(BLOCK_HEIGHT, info(PLAYER_A, vec![coin(10)]), msg, true)
        .unwrap()
}

fn play_move(
    state: &mut ChessState,
    sender: &str,
    match_id: &[u8],
    move_fen: &str,
) -> Result<Response, ContractError> {
    state.execute(
        BLOCK_HEIGHT,
        info(sender, vec![]),
        ExecuteMsg::MakeMove {
            match_id: hex::encode(match_id),
            move_fen: move_fen.to_string(),
        },
        true,
    )
}

#[test]
fn instantiate() {
    let _state = setup();
}

#[test]
fn instantiate_succeeds() {
    let msg = InstantiateMsg { min_bet: coin(10) };
    let (state, res) = cw_chess::contract::instantiate(info("admin", vec![]), msg);
    assert_eq!(0, res.messages.len());

    assert_eq!("admin", state.admin);
    assert_eq!(coin(10), state.min_bet);
    assert_eq!(0, state.next_nonce);

    let expected = Response {
        attributes: vec![attr("action", "instantiate"), attr("owner", "admin")],
        events: vec![],
        messages: vec![],
    };
    assert_eq!(expected, res);
}

#[test]
fn create_match_succeeds() {
    let mut state = setup();
    let res = create(&mut state);
    assert_eq!(0, res.messages.len());

    let match_id = match_id(&PLAYER_A.to_string(), &PLAYER_B.to_string(), 0u64);

    let actual = state.lookup_match(&match_id).unwrap();
    let expected = Match::new_ext(
        PLAYER_A.to_string(),
        PLAYER_B.to_string(),
        MatchState::AwaitingOpponent,
        0u64,
        0u64,
        0u64,
        coin(10),
    );
    assert_eq!(expected, actual);

    assert!(state.has_player_match(&PLAYER_A.to_string(), &match_id));
    assert!(state.has_player_match(&PLAYER_B.to_string(), &match_id));

    let stored_id = state.match_id_by_nonce(0u64).unwrap();
    assert_eq!(match_id, stored_id);

    assert_eq!(1, state.next_nonce);

    let expected = Response {
        attributes: vec![attr("action", "create_match"), attr("sender", PLAYER_A)],
        events: vec![Event {
            ty: "match_created".to_string(),
            attributes: vec![
                attr("challenger", PLAYER_A),
                attr("opponent", PLAYER_B),
                attr("match_id", &hex::encode(&match_id)),
            ],
        }],
        messages: vec![],
    };
    assert_eq!(expected, res);
}

#[test]
fn abort_match_succeeds() {
    let mut state = setup();
    let res = create(&mut state);
    assert_eq!(0, res.messages.len());

    let match_id = match_id(&PLAYER_A.to_string(), &PLAYER_B.to_string(), 0u64);

    let abort_msg = ExecuteMsg::AbortMatch { match_id: hex::encode(&match_id) };
    let res = state
        .execute(BLOCK_HEIGHT, info(PLAYER_A, vec![coin(10)]), abort_msg, true)
        .unwrap();
    assert_eq!(0, res.messages.len());

    assert_eq!(
        Err(ContractError::UnknownMatch),
        state.lookup_match(&match_id)
    );
    assert!(!state.has_player_match(&PLAYER_A.to_string(), &match_id));
    assert!(!state.has_player_match(&PLAYER_B.to_string(), &match_id));
    assert_eq!(None, state.match_id_by_nonce(0u64));

    let expected = Response {
        attributes: vec![attr("action", "abort_match"), attr("sender", PLAYER_A)],
        events: vec![Event {
            ty: "match_aborted".to_string(),
            attributes: vec![attr("match_id", &hex::encode(&match_id))],
        }],
        messages: vec![],
    };
    assert_eq!(expected, res);
}

#[test]
fn join_match_succeeds() {
    let mut state = setup();
    let res = create(&mut state);
    assert_eq!(0, res.messages.len());

    let match_id = match_id(&PLAYER_A.to_string(), &PLAYER_B.to_string(), 0u64);

    let join_msg = ExecuteMsg::JoinMatch { match_id: hex::encode(&match_id) };
    let res = state
        .execute(BLOCK_HEIGHT, info(PLAYER_B, vec![coin(10)]), join_msg, true)
        .unwrap();
    assert_eq!(0, res.messages.len());

    let actual = state.lookup_match(&match_id).unwrap();
    let expected = Match::new_ext(
        PLAYER_A.to_string(),
        PLAYER_B.to_string(),
        MatchState::OnGoing(NextMove::Whites),
        0u64,
        0u64,
        BLOCK_HEIGHT,
        coin(10),
    );
    assert_eq!(expected, actual);

    let expected = Response {
        attributes: vec![attr("action", "join_match"), attr("sender", PLAYER_B)],
        events: vec![Event {
            ty: "match_started".to_string(),
            attributes: vec![attr("match_id", &hex::encode(&match_id))],
        }],
        messages: vec![],
    };
    assert_eq!(expected, res);
}

#[test]
fn make_move_succeeds() {
    let mut state = setup();
    let res = create(&mut state);
    assert_eq!(0, res.messages.len());

    let match_id = match_id(&PLAYER_A.to_string(), &PLAYER_B.to_string(), 0u64);

    let join_msg = ExecuteMsg::JoinMatch { match_id: hex::encode(&match_id) };
    let res = state
        .execute(BLOCK_HEIGHT, info(PLAYER_B, vec![coin(10)]), join_msg, true)
        .unwrap();
    assert_eq!(0, res.messages.len());

    let res = play_move(&mut state, PLAYER_A, &match_id, "e2e4").unwrap();
    assert_eq!(0, res.messages.len());

    let actual = state.lookup_match(&match_id).unwrap();
    let expected = Match::new_ext(
        PLAYER_A.to_string(),
        PLAYER_B.to_string(),
        MatchState::OnGoing(NextMove::Blacks),
        0u64,
        BLOCK_HEIGHT,
        BLOCK_HEIGHT,
        coin(10),
    )
    .set_board_state("rnbqkbnr/pppppppp/8/8/4P3/8/PPPP1PPP/RNBQKBNR b KQkq e3 0 1".to_string());
    assert_eq!(expected, actual);

    let expected = Response {
        attributes: vec![attr("action", "make_move"), attr("sender", PLAYER_A)],
        events: vec![Event {
            ty: "move_executed".to_string(),
            attributes: vec![
                attr("match_id", &hex::encode(&match_id)),
                attr("player", PLAYER_A),
                attr("move", "e2e4"),
            ],
        }],
        messages: vec![],
    };
    assert_eq!(expected, res);

    assert_eq!(
        ContractError::NotYourTurn,
        play_move(&mut state, PLAYER_A, &match_id, "e7e5").unwrap_err()
    );

    assert_eq!(
        ContractError::IllegalMove,
        play_move(&mut state, PLAYER_B, &match_id, "e2e4").unwrap_err()
    );

    assert_eq!(
        ContractError::InvalidMoveEncoding,
        play_move(&mut state, PLAYER_B, &match_id, "1234").unwrap_err()
    );

    assert_eq!(
        ContractError::InvalidMoveEncoding,
        play_move(&mut state, PLAYER_B, &match_id, "e1e2e3").unwrap_err()
    );

    assert_eq!(
        ContractError::InvalidMoveEncoding,
        play_move(&mut state, PLAYER_B, &match_id, "1").unwrap_err()
    );

    // A direct line to checkmate: the last move wins for the opponent.
    let _ = play_move(&mut state, PLAYER_B, &match_id, "e7e5").unwrap();
    let _ = play_move(&mut state, PLAYER_A, &match_id, "g1f3").unwrap();
    let _ = play_move(&mut state, PLAYER_B, &match_id, "b8c6").unwrap();
    let _ = play_move(&mut state, PLAYER_A, &match_id, "d2d4").unwrap();
    let _ = play_move(&mut state, PLAYER_B, &match_id, "e5d4").unwrap();
    let _ = play_move(&mut state, PLAYER_A, &match_id, "f3d4").unwrap();
    let _ = play_move(&mut state, PLAYER_B, &match_id, "f8c5").unwrap();
    let _ = play_move(&mut state, PLAYER_A, &match_id, "c2c3").unwrap();
    let _ = play_move(&mut state, PLAYER_B, &match_id, "d8f6").unwrap();
    let _ = play_move(&mut state, PLAYER_A, &match_id, "d4c6").unwrap();
    let res = play_move(&mut state, PLAYER_B, &match_id, "f6f2").unwrap();

    let expected = Response {
        attributes: vec![attr("action", "make_move"), attr("sender", PLAYER_B)],
        events: vec![
            Event {
                ty: "move_executed".to_string(),
                attributes: vec![
                    attr("match_id", &hex::encode(&match_id)),
                    attr("player", PLAYER_B),
                    attr("move", "f6f2"),
                ],
            },
            Event {
                ty: "match_won".to_string(),
                attributes: vec![
                    attr("match_id", &hex::encode(&match_id)),
                    attr("winner", PLAYER_B),
                    attr(
                        "board",
                        "r1b1k1nr/pppp1ppp/2N5/2b5/4P3/2P5/PP3qPP/RNBQKB1R w KQkq - 0 7",
                    ),
                ],
            },
        ],
        messages: vec![BankTransfer {
            to_address: PLAYER_B.to_string(),
            amount: vec![coin(20)],
        }],
    };
    assert_eq!(expected, res);

    assert_eq!(
        Err(ContractError::UnknownMatch),
        state.lookup_match(&match_id)
    );
    assert!(!state.has_player_match(&PLAYER_A.to_string(), &match_id));
    assert!(!state.has_player_match(&PLAYER_B.to_string(), &match_id));
    assert_eq!(None, state.match_id_by_nonce(0u64));
}
