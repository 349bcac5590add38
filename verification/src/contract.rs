//! The match lifecycle state machine: create, abort, join and move, each an
//! atomic operation on the persisted state. Every operation validates first
//! and mutates after; a rejection commits nothing and emits nothing.

use vstd::prelude::*;

use crate::coin::{
    bet_error, funds_view, join_bet_error, validate_bet, validate_join_bet, Coin, CoinV,
};
use crate::engine::canonical_fen;
use crate::error::ContractError;
use crate::game::{Match, MatchState, MatchV, NextMove, MOVE_FEN_LENGTH};
use crate::ident::{
    hex_decoded, hex_of, lemma_hex_round_trip, match_id, match_id_of, match_id_text_ok,
    validate_match_id,
};
use crate::msg::{ExecuteMsg, InstantiateMsg, MessageInfo};
use crate::response::{BankTransfer, BankTransferV, Event, EventV, Response, ResponseV};
use crate::state::{links_ok, match_entry_ok, ChessState, StateV};
use vstd::string::StringSliceAdditionalSpecFns;
use vstd::utf8::encode_utf8;

verus! {

/// Every board the registry holds is one the engine rendered itself, so
/// decoding and re-encoding it is the identity.
pub open spec fn boards_canonical(s: StateV) -> bool {
    forall|id: Seq<u8>|
        #[trigger] s.matches.dom().contains(id) ==> canonical_fen(s.matches[id].board)
}

/// The view of an operation's result.
pub open spec fn res_view(r: Result<Response, ContractError>) -> Result<ResponseV, ContractError> {
    match r {
        Ok(resp) => Ok(resp@),
        Err(e) => Err(e),
    }
}

/// Rejects a self-challenge.
fn validate_players(challenger: &String, opponent: &String) -> (r: Result<(), ContractError>)
    ensures
        r == if challenger@ == opponent@ {
            Err::<(), ContractError>(ContractError::InvalidOpponent)
        } else {
            Ok::<(), ContractError>(())
        },
{
    if *challenger == *opponent {
        return Err(ContractError::InvalidOpponent);
    }
    Ok(())
}

/// Rejects a caller who is not the designated opponent.
fn validate_opponent(expected: &String, actual: &String) -> (r: Result<(), ContractError>)
    ensures
        r == if expected@ != actual@ {
            Err::<(), ContractError>(ContractError::InvalidOpponent)
        } else {
            Ok::<(), ContractError>(())
        },
{
    if !(*expected == *actual) {
        return Err(ContractError::InvalidOpponent);
    }
    Ok(())
}

/// Rejects a caller who is not the match's creator.
fn validate_match_creator(chess_match: &Match, addr: &String) -> (r: Result<(), ContractError>)
    ensures
        r == if addr@ != chess_match@.challenger {
            Err::<(), ContractError>(ContractError::NotMatchCreator)
        } else {
            Ok::<(), ContractError>(())
        },
{
    if !(*addr == chess_match.challenger) {
        return Err(ContractError::NotMatchCreator);
    }
    Ok(())
}

/// Rejects a match that is not awaiting its opponent.
fn ensure_awaiting_opponent(chess_match: &Match) -> (r: Result<(), ContractError>)
    ensures
        r == if chess_match@.state != MatchState::AwaitingOpponent {
            Err::<(), ContractError>(ContractError::NotAwaitingOpponent)
        } else {
            Ok::<(), ContractError>(())
        },
{
    if !(chess_match.state == MatchState::AwaitingOpponent) {
        return Err(ContractError::NotAwaitingOpponent);
    }
    Ok(())
}

/// Rejects a move encoding that is not exactly four bytes: a from-square and
/// a to-square, with no promotion-piece suffix.
pub fn validate_fen_move(move_fen: &str) -> (r: Result<(), ContractError>)
    ensures
        r == if move_fen.spec_bytes().len() != MOVE_FEN_LENGTH {
            Err::<(), ContractError>(ContractError::InvalidMoveEncoding)
        } else {
            Ok::<(), ContractError>(())
        },
{
    if move_fen.as_bytes().len() != MOVE_FEN_LENGTH {
        return Err(ContractError::InvalidMoveEncoding);
    }
    Ok(())
}

/// Who may move, given a match's state: nobody before the opponent joins or
/// after the game is decided; the challenger when white is to move; the
/// opponent when black is.
pub open spec fn turn_error(m: MatchV, player: Seq<char>) -> Option<ContractError> {
    match m.state {
        MatchState::AwaitingOpponent => Some(ContractError::StillAwaitingOpponent),
        MatchState::Won => Some(ContractError::MatchAlreadyFinished),
        MatchState::Drawn => Some(ContractError::MatchAlreadyFinished),
        MatchState::OnGoing(NextMove::Whites) => if player != m.challenger {
            Some(ContractError::NotYourTurn)
        } else {
            None
        },
        MatchState::OnGoing(NextMove::Blacks) => if player != m.opponent {
            Some(ContractError::NotYourTurn)
        } else {
            None
        },
    }
}

/// Validates that the caller is the active side of an ongoing match.
fn validate_match_state(chess_match: &Match, player: &String) -> (r: Result<(), ContractError>)
    ensures
        r == match turn_error(chess_match@, player@) {
            Some(e) => Err::<(), ContractError>(e),
            None => Ok::<(), ContractError>(()),
        },
{
    match chess_match.state {
        MatchState::AwaitingOpponent => Err(ContractError::StillAwaitingOpponent),
        MatchState::Won => Err(ContractError::MatchAlreadyFinished),
        MatchState::Drawn => Err(ContractError::MatchAlreadyFinished),
        MatchState::OnGoing(NextMove::Whites) => {
            if !(*player == chess_match.challenger) {
                Err(ContractError::NotYourTurn)
            } else {
                Ok(())
            }
        },
        MatchState::OnGoing(NextMove::Blacks) => {
            if !(*player == chess_match.opponent) {
                Err(ContractError::NotYourTurn)
            } else {
                Ok(())
            }
        },
    }
}

/// The response of a successful initialization.
pub open spec fn instantiate_response(owner: Seq<char>) -> ResponseV {
    ResponseV {
        attributes: seq![("action"@, "instantiate"@), ("owner"@, owner)],
        events: Seq::empty(),
        messages: Seq::empty(),
    }
}

/// The response of a successful creation: who challenged whom, under which
/// identifier.
pub open spec fn create_response(challenger: Seq<char>, opponent: Seq<char>, id: Seq<u8>) -> ResponseV {
    ResponseV {
        attributes: seq![("action"@, "create_match"@), ("sender"@, challenger)],
        events: seq![
            EventV {
                ty: "match_created"@,
                attributes: seq![
                    ("challenger"@, challenger),
                    ("opponent"@, opponent),
                    ("match_id"@, hex_of(id)),
                ],
            },
        ],
        messages: Seq::empty(),
    }
}

/// The response of a successful abort.
pub open spec fn abort_response(sender: Seq<char>, id: Seq<u8>) -> ResponseV {
    ResponseV {
        attributes: seq![("action"@, "abort_match"@), ("sender"@, sender)],
        events: seq![
            EventV { ty: "match_aborted"@, attributes: seq![("match_id"@, hex_of(id))] },
        ],
        messages: Seq::empty(),
    }
}

/// The response of a successful join.
pub open spec fn join_response(sender: Seq<char>, id: Seq<u8>) -> ResponseV {
    ResponseV {
        attributes: seq![("action"@, "join_match"@), ("sender"@, sender)],
        events: seq![
            EventV { ty: "match_started"@, attributes: seq![("match_id"@, hex_of(id))] },
        ],
        messages: Seq::empty(),
    }
}

/// Which rejection, if any, a creation request meets: a malformed opponent
/// address, a self-challenge, then the stake policy.
pub open spec fn create_outcome(
    s: StateV,
    sender: Seq<char>,
    opponent: Seq<char>,
    opponent_valid: bool,
    funds: Seq<CoinV>,
) -> Option<ContractError> {
    if !opponent_valid {
        Some(ContractError::InvalidAddress)
    } else if sender == opponent {
        Some(ContractError::InvalidOpponent)
    } else {
        match bet_error(funds, s.min_bet) {
            Some(reason) => Some(ContractError::InvalidBet { reason }),
            None => None,
        }
    }
}

/// Everything a creation request does: on a rejection, nothing; on success,
/// the new match is registered under its derived identifier in state
/// `AwaitingOpponent`, both players are indexed, the nonce index names it,
/// and the counter advances.
pub open spec fn create_post(
    s0: StateV,
    s1: StateV,
    sender: Seq<char>,
    opponent: Seq<char>,
    opponent_valid: bool,
    funds: Seq<CoinV>,
    r: Result<ResponseV, ContractError>,
) -> bool {
    match create_outcome(s0, sender, opponent, opponent_valid, funds) {
        Some(e) => r == Err::<ResponseV, ContractError>(e) && s1 == s0,
        None => {
            let nonce = s0.next_nonce;
            let id = match_id_of(sender, opponent, nonce);
            let m = MatchV {
                challenger: sender,
                opponent: opponent,
                board: crate::engine::start_fen(),
                state: MatchState::AwaitingOpponent,
                nonce,
                last_move: 0u64,
                start: 0u64,
                bet: funds[0],
            };
            &&& r == Ok::<ResponseV, ContractError>(create_response(sender, opponent, id))
            &&& s1.matches == s0.matches.insert(id, m)
            &&& s1.players == s0.players.insert((sender, id)).insert((opponent, id))
            &&& s1.nonces == s0.nonces.insert(nonce, id)
            &&& s1.next_nonce == nonce + 1
            &&& s1.admin == s0.admin
            &&& s1.min_bet == s0.min_bet
        },
    }
}

/// Which rejection, if any, an abort request meets: malformed identifier
/// text, an unknown match, a caller other than the creator, then a match no
/// longer awaiting its opponent.
pub open spec fn abort_outcome(s: StateV, sender: Seq<char>, raw_id: Seq<u8>) -> Option<
    ContractError,
> {
    if !match_id_text_ok(raw_id) {
        Some(ContractError::InvalidMatchId)
    } else {
        let id = hex_decoded(raw_id);
        if !s.matches.dom().contains(id) {
            Some(ContractError::UnknownMatch)
        } else if sender != s.matches[id].challenger {
            Some(ContractError::NotMatchCreator)
        } else if s.matches[id].state != MatchState::AwaitingOpponent {
            Some(ContractError::NotAwaitingOpponent)
        } else {
            None
        }
    }
}

/// Everything an abort does: on a rejection, nothing; on success the match,
/// both of its player-index entries and its nonce entry are all removed, and
/// no funds move.
pub open spec fn abort_post(
    s0: StateV,
    s1: StateV,
    sender: Seq<char>,
    raw_id: Seq<u8>,
    r: Result<ResponseV, ContractError>,
) -> bool {
    match abort_outcome(s0, sender, raw_id) {
        Some(e) => r == Err::<ResponseV, ContractError>(e) && s1 == s0,
        None => {
            let id = hex_decoded(raw_id);
            let m = s0.matches[id];
            &&& r == Ok::<ResponseV, ContractError>(abort_response(sender, id))
            &&& s1.matches == s0.matches.remove(id)
            &&& s1.players == s0.players.remove((m.challenger, id)).remove((m.opponent, id))
            &&& s1.nonces == s0.nonces.remove(m.nonce)
            &&& !s1.matches.dom().contains(id)
            &&& !s1.players.contains((m.challenger, id))
            &&& !s1.players.contains((m.opponent, id))
            &&& !s1.nonces.dom().contains(m.nonce)
            &&& s1.next_nonce == s0.next_nonce
            &&& s1.admin == s0.admin
            &&& s1.min_bet == s0.min_bet
        },
    }
}

/// Which rejection, if any, a join request meets: malformed identifier text,
/// an unknown match, a caller other than the designated opponent, a stake
/// that is not exactly one coin of the challenger's denomination and amount,
/// then a match not awaiting an opponent.
pub open spec fn join_outcome(
    s: StateV,
    sender: Seq<char>,
    raw_id: Seq<u8>,
    funds: Seq<CoinV>,
) -> Option<ContractError> {
    if !match_id_text_ok(raw_id) {
        Some(ContractError::InvalidMatchId)
    } else {
        let id = hex_decoded(raw_id);
        if !s.matches.dom().contains(id) {
            Some(ContractError::UnknownMatch)
        } else {
            let m = s.matches[id];
            if sender != m.opponent {
                Some(ContractError::InvalidOpponent)
            } else {
                match join_bet_error(funds, m.bet) {
                    Some(reason) => Some(ContractError::InvalidBet { reason }),
                    None => if m.state != MatchState::AwaitingOpponent {
                        Some(ContractError::NotAwaitingOpponent)
                    } else {
                        None
                    },
                }
            }
        }
    }
}

/// Everything a join does: on a rejection, nothing; on success the match
/// moves to `OnGoing` with white to play and its start marker set to the
/// joining block height.
pub open spec fn join_post(
    s0: StateV,
    s1: StateV,
    height: u64,
    sender: Seq<char>,
    raw_id: Seq<u8>,
    funds: Seq<CoinV>,
    r: Result<ResponseV, ContractError>,
) -> bool {
    match join_outcome(s0, sender, raw_id, funds) {
        Some(e) => r == Err::<ResponseV, ContractError>(e) && s1 == s0,
        None => {
            let id = hex_decoded(raw_id);
            let m = s0.matches[id];
            let started = MatchV {
                state: MatchState::OnGoing(NextMove::Whites),
                start: height,
                ..m
            };
            &&& r == Ok::<ResponseV, ContractError>(join_response(sender, id))
            &&& s1.matches == s0.matches.insert(id, started)
            &&& s1.players == s0.players
            &&& s1.nonces == s0.nonces
            &&& s1.next_nonce == s0.next_nonce
            &&& s1.admin == s0.admin
            &&& s1.min_bet == s0.min_bet
        },
    }
}

/// The attributes every move response carries.
pub open spec fn move_response_base(sender: Seq<char>) -> Seq<(Seq<char>, Seq<char>)> {
    seq![("action"@, "make_move"@), ("sender"@, sender)]
}

/// The event recording an executed move.
pub open spec fn move_executed_event(id: Seq<u8>, player: Seq<char>, mv: Seq<char>) -> EventV {
    EventV {
        ty: "move_executed"@,
        attributes: seq![("match_id"@, hex_of(id)), ("player"@, player), ("move"@, mv)],
    }
}

/// The event recording a win, with the final board.
pub open spec fn match_won_event(id: Seq<u8>, winner: Seq<char>, board: Seq<char>) -> EventV {
    EventV {
        ty: "match_won"@,
        attributes: seq![("match_id"@, hex_of(id)), ("winner"@, winner), ("board"@, board)],
    }
}

/// The event recording a draw, with the final board.
pub open spec fn match_drawn_event(id: Seq<u8>, board: Seq<char>) -> EventV {
    EventV { ty: "match_drawn"@, attributes: seq![("match_id"@, hex_of(id)), ("board"@, board)] }
}

/// The full pot — both stakes — owed to the winner.
pub open spec fn pot_transfer(winner: Seq<char>, bet: CoinV) -> BankTransferV {
    BankTransferV {
        to_address: winner,
        amount: seq![CoinV { amount: (bet.amount * 2) as u128, denom: bet.denom }],
    }
}

/// Each side's original stake returned on a draw: the challenger's first.
pub open spec fn refund_transfers(m: MatchV) -> Seq<BankTransferV> {
    seq![
        BankTransferV { to_address: m.challenger, amount: seq![m.bet] },
        BankTransferV { to_address: m.opponent, amount: seq![m.bet] },
    ]
}

/// The response of a move that keeps the game going.
pub open spec fn move_ongoing_response(sender: Seq<char>, id: Seq<u8>, mv: Seq<char>) -> ResponseV {
    ResponseV {
        attributes: move_response_base(sender),
        events: seq![move_executed_event(id, sender, mv)],
        messages: Seq::empty(),
    }
}

/// The response of a winning move: the win event follows the move event, and
/// the mover is owed the whole pot.
pub open spec fn move_won_response(
    sender: Seq<char>,
    id: Seq<u8>,
    mv: Seq<char>,
    board: Seq<char>,
    bet: CoinV,
) -> ResponseV {
    ResponseV {
        attributes: move_response_base(sender),
        events: seq![move_executed_event(id, sender, mv), match_won_event(id, sender, board)],
        messages: seq![pot_transfer(sender, bet)],
    }
}

/// The response of a drawing move: the draw event follows the move event,
/// and each side is owed its original stake back.
pub open spec fn move_drawn_response(
    sender: Seq<char>,
    id: Seq<u8>,
    mv: Seq<char>,
    board: Seq<char>,
    m: MatchV,
) -> ResponseV {
    ResponseV {
        attributes: move_response_base(sender),
        events: seq![move_executed_event(id, sender, mv), match_drawn_event(id, board)],
        messages: refund_transfers(m),
    }
}

/// Which rejection, if any, a move request meets: malformed identifier text,
/// a move encoding of the wrong length, an unknown match, a caller who is
/// not the active side, a stored board the engine rejects (internal
/// corruption), a move the engine cannot parse, an illegal move, then a
/// post-move encoding the engine rejects (internal corruption again; on the
/// canonical boards the lifecycle stores, this never happens).
pub open spec fn move_outcome(
    s: StateV,
    sender: Seq<char>,
    raw_id: Seq<u8>,
    mv: Seq<char>,
    mv_bytes: Seq<u8>,
) -> Option<ContractError> {
    if !match_id_text_ok(raw_id) {
        Some(ContractError::InvalidMatchId)
    } else if mv_bytes.len() != MOVE_FEN_LENGTH {
        Some(ContractError::InvalidMoveEncoding)
    } else {
        let id = hex_decoded(raw_id);
        if !s.matches.dom().contains(id) {
            Some(ContractError::UnknownMatch)
        } else {
            let m = s.matches[id];
            match turn_error(m, sender) {
                Some(e) => Some(e),
                None => if !crate::engine::fen_parses(m.board) {
                    Some(ContractError::InvalidBoardEncoding)
                } else if !crate::engine::move_parses(mv) {
                    Some(ContractError::InvalidMoveEncoding)
                } else if !crate::engine::move_legal(m.board, mv) {
                    Some(ContractError::IllegalMove)
                } else if !crate::engine::fen_parses(crate::engine::fen_after(m.board, mv)) {
                    Some(ContractError::InvalidBoardEncoding)
                } else {
                    None
                },
            }
        }
    }
}

/// Everything a move does: on a rejection, nothing. On success the board
/// advances and the state is recomputed from the engine's report. A win
/// pays the whole pot to the mover and removes the match; a draw refunds
/// both sides and removes the match; otherwise the updated match is
/// persisted in place and no funds move.
pub open spec fn move_post(
    s0: StateV,
    s1: StateV,
    height: u64,
    sender: Seq<char>,
    raw_id: Seq<u8>,
    mv: Seq<char>,
    mv_bytes: Seq<u8>,
    r: Result<ResponseV, ContractError>,
) -> bool {
    match move_outcome(s0, sender, raw_id, mv, mv_bytes) {
        Some(e) => r == Err::<ResponseV, ContractError>(e) && s1 == s0,
        None => {
            let id = hex_decoded(raw_id);
            let m = s0.matches[id];
            let new_board = crate::engine::fen_after(m.board, mv);
            let new_state = crate::game::engine_state(new_board);
            let updated = MatchV { board: new_board, state: new_state, last_move: height, ..m };
            &&& canonical_fen(m.board) ==> canonical_fen(new_board)
            &&& s1.admin == s0.admin
            &&& s1.min_bet == s0.min_bet
            &&& s1.next_nonce == s0.next_nonce
            &&& match new_state {
                MatchState::Won => {
                    &&& r == Ok::<ResponseV, ContractError>(
                        move_won_response(sender, id, mv, new_board, m.bet),
                    )
                    &&& s1.matches == s0.matches.remove(id)
                    &&& s1.players == s0.players.remove((m.challenger, id)).remove(
                        (m.opponent, id),
                    )
                    &&& s1.nonces == s0.nonces.remove(m.nonce)
                },
                MatchState::Drawn => {
                    &&& r == Ok::<ResponseV, ContractError>(
                        move_drawn_response(sender, id, mv, new_board, m),
                    )
                    &&& s1.matches == s0.matches.remove(id)
                    &&& s1.players == s0.players.remove((m.challenger, id)).remove(
                        (m.opponent, id),
                    )
                    &&& s1.nonces == s0.nonces.remove(m.nonce)
                },
                _ => {
                    &&& r == Ok::<ResponseV, ContractError>(move_ongoing_response(sender, id, mv))
                    &&& s1.matches == s0.matches.insert(id, updated)
                    &&& s1.players == s0.players
                    &&& s1.nonces == s0.nonces
                },
            }
        },
    }
}

/// Initializes one instance: the caller becomes the administrator, the
/// minimum-bet policy is stored, and the nonce counter starts at zero. The
/// registry starts empty.
pub fn instantiate(info: MessageInfo, msg: InstantiateMsg) -> (r: (ChessState, Response))
    ensures
        r.0.wf(),
        boards_canonical(r.0@),
        r.0@.admin == info.sender@,
        r.0@.min_bet == msg.min_bet@,
        r.0@.next_nonce == 0,
        r.0@.matches == Map::<Seq<u8>, MatchV>::empty(),
        r.0@.players == Set::<(Seq<char>, Seq<u8>)>::empty(),
        r.0@.nonces == Map::<u64, Seq<u8>>::empty(),
        r.1@ == instantiate_response(info.sender@),
{
    let owner = info.sender;
    let state = ChessState {
        admin: owner.clone(),
        min_bet: msg.min_bet,
        next_nonce: 0u64,
        matches: Vec::new(),
        player_matches: Vec::new(),
        match_ids: Vec::new(),
    };
    let response = Response {
        attributes: vec![
            ("action".to_owned(), "instantiate".to_owned()),
            ("owner".to_owned(), owner),
        ],
        events: Vec::new(),
        messages: Vec::new(),
    };
    proof {
        assert(state.matches_seq() =~= Seq::empty());
        assert(state.players_seq() =~= Seq::empty());
        assert(state.nonces_seq() =~= Seq::empty());
        assert(state@.matches =~= Map::<Seq<u8>, MatchV>::empty());
        assert(state@.players =~= Set::<(Seq<char>, Seq<u8>)>::empty());
        assert(state@.nonces =~= Map::<u64, Seq<u8>>::empty());
        assert(response@ =~~= instantiate_response(state@.admin));
    }
    (state, response)
}

impl ChessState {
    /// Creates a match: the sender challenges the opponent, depositing the
    /// stake attached to the call. `opponent_valid` carries the host's
    /// verdict on the opponent's address, which only the host can check.
    /// The machine limits — a counter that can still advance, a stake the
    /// pot arithmetic can double — are demanded only of a request that will
    /// be accepted; every rejection is available unconditionally.
    pub fn create_match(&mut self, info: MessageInfo, opponent: String, opponent_valid: bool) -> (r:
        Result<Response, ContractError>)
        requires
            old(self).wf(),
            create_outcome(
                old(self)@,
                info.sender@,
                opponent@,
                opponent_valid,
                funds_view(info.funds@),
            ) is None ==> old(self).next_nonce < u64::MAX && funds_view(
                info.funds@,
            )[0].amount * 2 <= u128::MAX,
        ensures
            final(self).wf(),
            boards_canonical(old(self)@) ==> boards_canonical(final(self)@),
            create_post(
                old(self)@,
                final(self)@,
                info.sender@,
                opponent@,
                opponent_valid,
                funds_view(info.funds@),
                res_view(r),
            ),
    {
        let challenger = info.sender;
        if !opponent_valid {
            return Err(ContractError::InvalidAddress);
        }
        match validate_players(&challenger, &opponent) {
            Err(e) => {
                return Err(e);
            },
            Ok(_) => {},
        }
        let bet = match validate_bet(&info.funds, &self.min_bet) {
            Err(e) => {
                return Err(e);
            },
            Ok(b) => b,
        };
        proof {
            assert(create_outcome(
                old(self)@,
                challenger@,
                opponent@,
                opponent_valid,
                funds_view(info.funds@),
            ) is None);
        }
        let nonce = self.next_nonce;
        let new_match = Match::new(challenger.clone(), opponent.clone(), nonce, bet);
        let ghost new_match_v = new_match@;
        let id = match_id(&challenger, &opponent, nonce);
        self.save_match_state(&id, new_match);
        self.save_player_match(&challenger, &id);
        self.save_player_match(&opponent, &id);
        self.save_match_id(nonce, &id);
        let _new_nonce = self.increment_nonce();
        let id_hex = crate::ident::hex_encode(&id);
        let response = Response {
            attributes: vec![
                ("action".to_owned(), "create_match".to_owned()),
                ("sender".to_owned(), challenger.clone()),
            ],
            events: vec![
                Event {
                    ty: "match_created".to_owned(),
                    attributes: vec![
                        ("challenger".to_owned(), challenger),
                        ("opponent".to_owned(), opponent),
                        ("match_id".to_owned(), id_hex),
                    ],
                },
            ],
            messages: Vec::new(),
        };
        proof {
            let s0 = old(self)@;
            let s1 = self@;
            let idv = id@;
            assert forall|k: Seq<u8>| #[trigger] s1.matches.dom().contains(k) implies
                match_entry_ok(s1, k) by {
                if k == idv {
                    assert(s1.matches[k] == new_match_v);
                } else {
                    assert(s0.matches.dom().contains(k));
                    assert(match_entry_ok(s0, k));
                    assert(s1.matches[k] == s0.matches[k]);
                    assert(s0.matches[k].nonce < s0.next_nonce);
                }
            }
            assert forall|k1: Seq<u8>, k2: Seq<u8>|
                s1.matches.dom().contains(k1) && s1.matches.dom().contains(k2) && k1 != k2
                    implies (#[trigger] s1.matches[k1]).nonce != (
                #[trigger] s1.matches[k2]).nonce by {
                if k1 != idv && k2 != idv {
                    assert(match_entry_ok(s0, k1));
                } else if k1 == idv {
                    assert(match_entry_ok(s0, k2));
                    assert(s0.matches[k2].nonce < s0.next_nonce);
                } else {
                    assert(match_entry_ok(s0, k1));
                    assert(s0.matches[k1].nonce < s0.next_nonce);
                }
            }
            assert(links_ok(s1));
            if boards_canonical(s0) {
                assert forall|k: Seq<u8>| #[trigger] s1.matches.dom().contains(k) implies
                    canonical_fen(s1.matches[k].board) by {
                    if k == idv {
                        assert(s1.matches[k].board == crate::engine::start_fen());
                    } else {
                        assert(s1.matches[k] == s0.matches[k]);
                    }
                }
            }
            assert(response@.attributes =~= create_response(
                new_match_v.challenger,
                new_match_v.opponent,
                idv,
            ).attributes);
            assert(response@.events[0].attributes =~= create_response(
                new_match_v.challenger,
                new_match_v.opponent,
                idv,
            ).events[0].attributes);
            assert(response@.events =~~= create_response(
                new_match_v.challenger,
                new_match_v.opponent,
                idv,
            ).events);
            assert(response@.messages =~= create_response(
                new_match_v.challenger,
                new_match_v.opponent,
                idv,
            ).messages);
            assert(response@ =~~= create_response(
                new_match_v.challenger,
                new_match_v.opponent,
                idv,
            ));
        }
        Ok(response)
    }

    /// Aborts a match that still awaits its opponent. Only the creator may
    /// abort, and only before anyone joins; the match and everything that
    /// names it are removed, and no funds move.
    pub fn abort_match(&mut self, info: MessageInfo, match_id_text: String) -> (r: Result<
        Response,
        ContractError,
    >)
        requires
            old(self).wf(),
        ensures
            final(self).wf(),
            boards_canonical(old(self)@) ==> boards_canonical(final(self)@),
            abort_post(
                old(self)@,
                final(self)@,
                info.sender@,
                encode_utf8(match_id_text@),
                res_view(r),
            ),
    {
        let challenger = info.sender;
        let id = match validate_match_id(match_id_text.as_str()) {
            Err(e) => {
                return Err(e);
            },
            Ok(v) => v,
        };
        let chess_match = match self.lookup_match(&id) {
            Err(e) => {
                return Err(e);
            },
            Ok(m) => m,
        };
        match validate_match_creator(&chess_match, &challenger) {
            Err(e) => {
                return Err(e);
            },
            Ok(_) => {},
        }
        match ensure_awaiting_opponent(&chess_match) {
            Err(e) => {
                return Err(e);
            },
            Ok(_) => {},
        }
        self.clean_match_state(&id, &chess_match);
        let id_hex = crate::ident::hex_encode(&id);
        let response = Response {
            attributes: vec![
                ("action".to_owned(), "abort_match".to_owned()),
                ("sender".to_owned(), challenger),
            ],
            events: vec![
                Event {
                    ty: "match_aborted".to_owned(),
                    attributes: vec![("match_id".to_owned(), id_hex)],
                },
            ],
            messages: Vec::new(),
        };
        proof {
            let s0 = old(self)@;
            let s1 = self@;
            let idv = id@;
            let m = s0.matches[idv];
            assert forall|k: Seq<u8>| #[trigger] s1.matches.dom().contains(k) implies
                match_entry_ok(s1, k) by {
                assert(k != idv);
                assert(s1.matches[k] == s0.matches[k]);
                assert(match_entry_ok(s0, k));
            }
            assert(links_ok(s1));
            if boards_canonical(s0) {
                assert forall|k: Seq<u8>| #[trigger] s1.matches.dom().contains(k) implies
                    canonical_fen(s1.matches[k].board) by {
                    assert(s1.matches[k] == s0.matches[k]);
                }
            }
            assert(response@.attributes =~= abort_response(s0.matches[idv].challenger, idv).attributes);
            assert(response@.events[0].attributes =~= abort_response(
                s0.matches[idv].challenger,
                idv,
            ).events[0].attributes);
            assert(response@.events =~~= abort_response(s0.matches[idv].challenger, idv).events);
            assert(response@.messages =~= abort_response(s0.matches[idv].challenger, idv).messages);
            assert(response@ =~~= abort_response(s0.matches[idv].challenger, idv));
        }
        Ok(response)
    }

    /// Joins a match as its designated opponent, depositing a stake equal to
    /// the challenger's. The game starts with white to move, and the start
    /// marker takes the joining block height.
    pub fn join_match(&mut self, env_height: u64, info: MessageInfo, match_id_text: String) -> (r:
        Result<Response, ContractError>)
        requires
            old(self).wf(),
        ensures
            final(self).wf(),
            boards_canonical(old(self)@) ==> boards_canonical(final(self)@),
            join_post(
                old(self)@,
                final(self)@,
                env_height,
                info.sender@,
                encode_utf8(match_id_text@),
                funds_view(info.funds@),
                res_view(r),
            ),
    {
        let opponent = info.sender;
        let id = match validate_match_id(match_id_text.as_str()) {
            Err(e) => {
                return Err(e);
            },
            Ok(v) => v,
        };
        let mut chess_match = match self.lookup_match(&id) {
            Err(e) => {
                return Err(e);
            },
            Ok(m) => m,
        };
        match validate_opponent(&opponent, &chess_match.opponent) {
            Err(e) => {
                return Err(e);
            },
            Ok(_) => {},
        }
        match validate_join_bet(&info.funds, &chess_match.bet) {
            Err(e) => {
                return Err(e);
            },
            Ok(_) => {},
        }
        match ensure_awaiting_opponent(&chess_match) {
            Err(e) => {
                return Err(e);
            },
            Ok(_) => {},
        }
        chess_match.start(env_height);
        let ghost started_v = chess_match@;
        self.save_match_state(&id, chess_match);
        let id_hex = crate::ident::hex_encode(&id);
        let response = Response {
            attributes: vec![
                ("action".to_owned(), "join_match".to_owned()),
                ("sender".to_owned(), opponent),
            ],
            events: vec![
                Event {
                    ty: "match_started".to_owned(),
                    attributes: vec![("match_id".to_owned(), id_hex)],
                },
            ],
            messages: Vec::new(),
        };
        proof {
            let s0 = old(self)@;
            let s1 = self@;
            let idv = id@;
            let m = s0.matches[idv];
            assert(started_v == (MatchV {
                state: MatchState::OnGoing(NextMove::Whites),
                start: env_height,
                ..m
            }));
            assert forall|k: Seq<u8>| #[trigger] s1.matches.dom().contains(k) implies
                match_entry_ok(s1, k) by {
                if k == idv {
                    assert(match_entry_ok(s0, idv));
                    assert(s1.matches[k] == started_v);
                } else {
                    assert(s1.matches[k] == s0.matches[k]);
                    assert(match_entry_ok(s0, k));
                }
            }
            assert forall|k1: Seq<u8>, k2: Seq<u8>|
                s1.matches.dom().contains(k1) && s1.matches.dom().contains(k2) && k1 != k2
                    implies (#[trigger] s1.matches[k1]).nonce != (
                #[trigger] s1.matches[k2]).nonce by {
                assert(s1.matches[k1].nonce == s0.matches[k1].nonce);
                assert(s1.matches[k2].nonce == s0.matches[k2].nonce);
            }
            assert(links_ok(s1));
            if boards_canonical(s0) {
                assert forall|k: Seq<u8>| #[trigger] s1.matches.dom().contains(k) implies
                    canonical_fen(s1.matches[k].board) by {
                    if k == idv {
                        assert(s1.matches[k].board == m.board);
                    } else {
                        assert(s1.matches[k] == s0.matches[k]);
                    }
                }
            }
            assert(response@.attributes =~= join_response(started_v.opponent, idv).attributes);
            assert(response@.events[0].attributes =~= join_response(
                started_v.opponent,
                idv,
            ).events[0].attributes);
            assert(response@.events =~~= join_response(started_v.opponent, idv).events);
            assert(response@.messages =~= join_response(started_v.opponent, idv).messages);
            assert(response@ =~~= join_response(started_v.opponent, idv));
        }
        Ok(response)
    }

    /// Plays one move for the caller. The caller must be the active side of
    /// an ongoing match; the move must be four bytes and legal. A winning
    /// move pays the mover the whole pot and removes the match; a drawing
    /// move refunds both sides and removes the match; otherwise the updated
    /// board is persisted and no funds move.
    pub fn make_move(
        &mut self,
        env_height: u64,
        info: MessageInfo,
        match_id_text: String,
        move_fen: String,
    ) -> (r: Result<Response, ContractError>)
        requires
            old(self).wf(),
        ensures
            final(self).wf(),
            boards_canonical(old(self)@) ==> boards_canonical(final(self)@),
            move_post(
                old(self)@,
                final(self)@,
                env_height,
                info.sender@,
                encode_utf8(match_id_text@),
                move_fen@,
                encode_utf8(move_fen@),
                res_view(r),
            ),
    {
        let player = info.sender;
        let ghost sender_v = player@;
        let id = match validate_match_id(match_id_text.as_str()) {
            Err(e) => {
                return Err(e);
            },
            Ok(v) => v,
        };
        match validate_fen_move(move_fen.as_str()) {
            Err(e) => {
                return Err(e);
            },
            Ok(_) => {},
        }
        let mut chess_match = match self.lookup_match(&id) {
            Err(e) => {
                return Err(e);
            },
            Ok(m) => m,
        };
        match validate_match_state(&chess_match, &player) {
            Err(e) => {
                return Err(e);
            },
            Ok(_) => {},
        }
        if !crate::engine::board_parses(chess_match.board.as_str()) {
            return Err(ContractError::InvalidBoardEncoding);
        }
        let ghost m0 = chess_match@;
        match chess_match.play_move(move_fen.as_str(), env_height) {
            Err(e) => {
                return Err(e);
            },
            Ok(_) => {},
        }
        let ghost updated_v = chess_match@;
        let id_hex = crate::ident::hex_encode(&id);
        let mut events: Vec<Event> = Vec::new();
        events.push(
            Event {
                ty: "move_executed".to_owned(),
                attributes: vec![
                    ("match_id".to_owned(), id_hex.clone()),
                    ("player".to_owned(), player.clone()),
                    ("move".to_owned(), move_fen),
                ],
            },
        );
        let mut messages: Vec<BankTransfer> = Vec::new();
        if chess_match.state == MatchState::Won {
            events.push(
                Event {
                    ty: "match_won".to_owned(),
                    attributes: vec![
                        ("match_id".to_owned(), id_hex),
                        ("winner".to_owned(), player.clone()),
                        ("board".to_owned(), chess_match.board()),
                    ],
                },
            );
            proof {
                assert(match_entry_ok(old(self)@, id@));
                assert(updated_v.bet == m0.bet);
            }
            transfer_pot_to_winner(&mut messages, &chess_match, &player);
            self.clean_match_state(&id, &chess_match);
        } else if chess_match.state == MatchState::Drawn {
            events.push(
                Event {
                    ty: "match_drawn".to_owned(),
                    attributes: vec![
                        ("match_id".to_owned(), id_hex),
                        ("board".to_owned(), chess_match.board()),
                    ],
                },
            );
            refund_players(&mut messages, &chess_match);
            self.clean_match_state(&id, &chess_match);
        } else {
            self.save_match_state(&id, chess_match);
        }
        let response = Response {
            attributes: vec![
                ("action".to_owned(), "make_move".to_owned()),
                ("sender".to_owned(), player),
            ],
            events,
            messages,
        };
        proof {
            let s0 = old(self)@;
            let s1 = self@;
            let idv = id@;
            let m = s0.matches[idv];
            let mv = move_fen@;
            let new_board = crate::engine::fen_after(m.board, mv);
            let new_state = crate::game::engine_state(new_board);
            assert(updated_v == (MatchV {
                board: new_board,
                state: new_state,
                last_move: env_height,
                ..m
            }));
            if new_state == MatchState::Won || new_state == MatchState::Drawn {
                assert forall|k: Seq<u8>| #[trigger] s1.matches.dom().contains(k) implies
                    match_entry_ok(s1, k) by {
                    assert(k != idv);
                    assert(s1.matches[k] == s0.matches[k]);
                    assert(match_entry_ok(s0, k));
                }
                assert(links_ok(s1));
                if boards_canonical(s0) {
                    assert forall|k: Seq<u8>| #[trigger] s1.matches.dom().contains(k) implies
                        canonical_fen(s1.matches[k].board) by {
                        assert(s1.matches[k] == s0.matches[k]);
                    }
                }
            } else {
                assert forall|k: Seq<u8>| #[trigger] s1.matches.dom().contains(k) implies
                    match_entry_ok(s1, k) by {
                    if k == idv {
                        assert(match_entry_ok(s0, idv));
                        assert(s1.matches[k] == updated_v);
                    } else {
                        assert(s1.matches[k] == s0.matches[k]);
                        assert(match_entry_ok(s0, k));
                    }
                }
                assert forall|k1: Seq<u8>, k2: Seq<u8>|
                    s1.matches.dom().contains(k1) && s1.matches.dom().contains(k2) && k1 != k2
                        implies (#[trigger] s1.matches[k1]).nonce != (
                    #[trigger] s1.matches[k2]).nonce by {
                    assert(s1.matches[k1].nonce == s0.matches[k1].nonce);
                    assert(s1.matches[k2].nonce == s0.matches[k2].nonce);
                }
                assert(links_ok(s1));
                if boards_canonical(s0) {
                    assert forall|k: Seq<u8>| #[trigger] s1.matches.dom().contains(k) implies
                        canonical_fen(s1.matches[k].board) by {
                        if k != idv {
                            assert(s1.matches[k] == s0.matches[k]);
                        }
                    }
                }
            }
            assert(response@.attributes =~= move_response_base(sender_v));
            assert(response@.events[0].attributes =~= move_executed_event(
                idv,
                sender_v,
                mv,
            ).attributes);
            if new_state == MatchState::Won {
                assert(response@.events[1].attributes =~= match_won_event(
                    idv,
                    sender_v,
                    new_board,
                ).attributes);
                assert(response@.events =~~= move_won_response(
                    sender_v,
                    idv,
                    mv,
                    new_board,
                    m.bet,
                ).events);
                assert(response@.messages[0].amount =~= pot_transfer(sender_v, m.bet).amount);
                assert(response@.messages =~~= move_won_response(
                    sender_v,
                    idv,
                    mv,
                    new_board,
                    m.bet,
                ).messages);
                assert(response@ =~~= move_won_response(sender_v, idv, mv, new_board, m.bet));
            } else if new_state == MatchState::Drawn {
                assert(response@.events[1].attributes =~= match_drawn_event(
                    idv,
                    new_board,
                ).attributes);
                assert(response@.events =~~= move_drawn_response(
                    sender_v,
                    idv,
                    mv,
                    new_board,
                    m,
                ).events);
                assert(response@.messages[0].amount =~= refund_transfers(m)[0].amount);
                assert(response@.messages[1].amount =~= refund_transfers(m)[1].amount);
                assert(response@.messages =~~= move_drawn_response(
                    sender_v,
                    idv,
                    mv,
                    new_board,
                    m,
                ).messages);
                assert(response@ =~~= move_drawn_response(sender_v, idv, mv, new_board, m));
            } else {
                assert(response@.events =~~= move_ongoing_response(sender_v, idv, mv).events);
                assert(response@.messages =~= move_ongoing_response(sender_v, idv, mv).messages);
                assert(response@ =~~= move_ongoing_response(sender_v, idv, mv));
            }
        }
        Ok(response)
    }
}

impl ChessState {
    /// Dispatches one state-changing operation. `opponent_addr_valid`
    /// carries the host's verdict on the opponent address of a creation
    /// request; the other operations ignore it.
    pub fn execute(
        &mut self,
        env_height: u64,
        info: MessageInfo,
        msg: ExecuteMsg,
        opponent_addr_valid: bool,
    ) -> (r: Result<Response, ContractError>)
        requires
            old(self).wf(),
            msg matches ExecuteMsg::CreateMatch { opponent } ==> (create_outcome(
                old(self)@,
                info.sender@,
                opponent@,
                opponent_addr_valid,
                funds_view(info.funds@),
            ) is None ==> old(self).next_nonce < u64::MAX && funds_view(
                info.funds@,
            )[0].amount * 2 <= u128::MAX),
        ensures
            final(self).wf(),
            boards_canonical(old(self)@) ==> boards_canonical(final(self)@),
            match msg {
                ExecuteMsg::CreateMatch { opponent } => create_post(
                    old(self)@,
                    final(self)@,
                    info.sender@,
                    opponent@,
                    opponent_addr_valid,
                    funds_view(info.funds@),
                    res_view(r),
                ),
                ExecuteMsg::AbortMatch { match_id } => abort_post(
                    old(self)@,
                    final(self)@,
                    info.sender@,
                    encode_utf8(match_id@),
                    res_view(r),
                ),
                ExecuteMsg::JoinMatch { match_id } => join_post(
                    old(self)@,
                    final(self)@,
                    env_height,
                    info.sender@,
                    encode_utf8(match_id@),
                    funds_view(info.funds@),
                    res_view(r),
                ),
                ExecuteMsg::MakeMove { match_id, move_fen } => move_post(
                    old(self)@,
                    final(self)@,
                    env_height,
                    info.sender@,
                    encode_utf8(match_id@),
                    move_fen@,
                    encode_utf8(move_fen@),
                    res_view(r),
                ),
            },
    {
        match msg {
            ExecuteMsg::CreateMatch { opponent } => self.create_match(
                info,
                opponent,
                opponent_addr_valid,
            ),
            ExecuteMsg::AbortMatch { match_id } => self.abort_match(info, match_id),
            ExecuteMsg::JoinMatch { match_id } => self.join_match(env_height, info, match_id),
            ExecuteMsg::MakeMove { match_id, move_fen } => self.make_move(
                env_height,
                info,
                match_id,
                move_fen,
            ),
        }
    }
}

/// A creation request naming the sender as its own opponent is always
/// rejected as `InvalidOpponent` and changes nothing, whatever funds are
/// attached.
pub proof fn lemma_self_challenge_rejected(
    s0: StateV,
    s1: StateV,
    sender: Seq<char>,
    funds: Seq<CoinV>,
    r: Result<ResponseV, ContractError>,
)
    requires
        create_post(s0, s1, sender, sender, true, funds, r),
    ensures
        r == Err::<ResponseV, ContractError>(ContractError::InvalidOpponent),
        s1 == s0,
{
}

/// Resubmitting an identical creation request registers a second, distinct
/// match: the counter is strictly increasing, so the second match carries
/// the next nonce and a freshly derived identifier.
pub proof fn lemma_repeat_create_distinct(
    s0: StateV,
    s1: StateV,
    s2: StateV,
    sender: Seq<char>,
    opponent: Seq<char>,
    funds: Seq<CoinV>,
    r1: Result<ResponseV, ContractError>,
    r2: Result<ResponseV, ContractError>,
)
    requires
        create_post(s0, s1, sender, opponent, true, funds, r1),
        create_post(s1, s2, sender, opponent, true, funds, r2),
        r1 is Ok,
    ensures
        r2 is Ok,
        s1.next_nonce == s0.next_nonce + 1,
        ({
            let id1 = match_id_of(sender, opponent, s0.next_nonce);
            let id2 = match_id_of(sender, opponent, (s0.next_nonce + 1) as u64);
            &&& s2.matches.dom().contains(id2)
            &&& s2.matches[id2].nonce == s0.next_nonce + 1
            &&& id1 != id2 ==> s2.matches.dom().contains(id1) && s2.matches[id1].nonce
                == s0.next_nonce && s2.matches[id1] != s2.matches[id2]
        }),
{
}

/// The identifier text an operation reports is accepted back by the other
/// operations: rendering a 32-byte identifier as lowercase hexadecimal gives
/// well-formed identifier text, and that text decodes to the same bytes.
pub proof fn lemma_rendered_identifier_round_trip(id: Seq<u8>)
    requires
        id.len() == 32,
    ensures
        match_id_text_ok(encode_utf8(hex_of(id))),
        hex_decoded(encode_utf8(hex_of(id))) == id,
{
    lemma_hex_round_trip(id);
}

/// Every board a consistent state stores is canonical: decoding it and
/// re-encoding it with the engine is the identity. Boards only ever enter
/// the registry from the engine's own renderer.
pub proof fn lemma_stored_boards_round_trip(s: StateV, id: Seq<u8>)
    ensures
        boards_canonical(s) && s.matches.dom().contains(id) ==> crate::engine::reencoded(
            s.matches[id].board,
        ) == s.matches[id].board,
{
}

/// How a match record may change while it stays registered: its identity —
/// participants, nonce, stake — never changes, and its state only ever moves
/// forward along the lifecycle graph: awaiting, then ongoing with white
/// first, then ongoing; it is never set back.
pub open spec fn lifecycle_advances(before: MatchV, after: MatchV) -> bool {
    &&& after.challenger == before.challenger
    &&& after.opponent == before.opponent
    &&& after.nonce == before.nonce
    &&& after.bet == before.bet
    &&& match (before.state, after.state) {
        (MatchState::AwaitingOpponent, MatchState::AwaitingOpponent) => true,
        (MatchState::AwaitingOpponent, MatchState::OnGoing(NextMove::Whites)) => true,
        (MatchState::OnGoing(_), MatchState::OnGoing(_)) => true,
        (MatchState::Won, MatchState::Won) => true,
        (MatchState::Drawn, MatchState::Drawn) => true,
        _ => false,
    }
}

/// No registered match is in a terminal state: reaching `Won` or `Drawn`
/// removes the match in the same operation.
pub open spec fn terminal_free(s: StateV) -> bool {
    forall|id: Seq<u8>|
        #[trigger] s.matches.dom().contains(id) ==> s.matches[id].state != MatchState::Won
            && s.matches[id].state != MatchState::Drawn
}

/// A creation touches no existing match: every match registered both before
/// and after, other than the one the new identifier names, is unchanged, and
/// the new record awaits its opponent. No terminal record appears.
pub proof fn lemma_create_lifecycle(
    s0: StateV,
    s1: StateV,
    sender: Seq<char>,
    opponent: Seq<char>,
    opponent_valid: bool,
    funds: Seq<CoinV>,
    r: Result<ResponseV, ContractError>,
)
    requires
        create_post(s0, s1, sender, opponent, opponent_valid, funds, r),
    ensures
        forall|id: Seq<u8>|
            s0.matches.dom().contains(id) && #[trigger] s1.matches.dom().contains(id) && id
                != match_id_of(sender, opponent, s0.next_nonce) ==> s1.matches[id]
                == s0.matches[id],
        r is Ok ==> s1.matches[match_id_of(sender, opponent, s0.next_nonce)].state
            == MatchState::AwaitingOpponent,
        terminal_free(s0) ==> terminal_free(s1),
{
}

/// An abort only removes: every match that survives it is unchanged.
pub proof fn lemma_abort_lifecycle(
    s0: StateV,
    s1: StateV,
    sender: Seq<char>,
    raw_id: Seq<u8>,
    r: Result<ResponseV, ContractError>,
)
    requires
        abort_post(s0, s1, sender, raw_id, r),
    ensures
        forall|id: Seq<u8>|
            s0.matches.dom().contains(id) && #[trigger] s1.matches.dom().contains(id)
                ==> s1.matches[id] == s0.matches[id],
        terminal_free(s0) ==> terminal_free(s1),
{
}

/// A join moves one match forward — awaiting to ongoing, white to play —
/// and touches no other; every surviving record advances along the
/// lifecycle graph with its identity intact.
pub proof fn lemma_join_lifecycle(
    s0: StateV,
    s1: StateV,
    height: u64,
    sender: Seq<char>,
    raw_id: Seq<u8>,
    funds: Seq<CoinV>,
    r: Result<ResponseV, ContractError>,
)
    requires
        join_post(s0, s1, height, sender, raw_id, funds, r),
    ensures
        forall|id: Seq<u8>|
            s0.matches.dom().contains(id) && #[trigger] s1.matches.dom().contains(id)
                ==> lifecycle_advances(s0.matches[id], s1.matches[id]),
        terminal_free(s0) ==> terminal_free(s1),
{
    match join_outcome(s0, sender, raw_id, funds) {
        Some(_) => {},
        None => {
            let target = hex_decoded(raw_id);
            assert forall|id: Seq<u8>|
                s0.matches.dom().contains(id) && #[trigger] s1.matches.dom().contains(id) implies
                lifecycle_advances(s0.matches[id], s1.matches[id]) by {
                if id != target {
                    assert(s1.matches[id] == s0.matches[id]);
                }
            }
        },
    }
}

/// A move either advances one ongoing match or ends it and removes it; it
/// touches no other. Every surviving record advances along the lifecycle
/// graph with its identity intact, and no terminal record is ever stored.
pub proof fn lemma_move_lifecycle(
    s0: StateV,
    s1: StateV,
    height: u64,
    sender: Seq<char>,
    raw_id: Seq<u8>,
    mv: Seq<char>,
    mv_bytes: Seq<u8>,
    r: Result<ResponseV, ContractError>,
)
    requires
        move_post(s0, s1, height, sender, raw_id, mv, mv_bytes, r),
    ensures
        forall|id: Seq<u8>|
            s0.matches.dom().contains(id) && #[trigger] s1.matches.dom().contains(id)
                ==> lifecycle_advances(s0.matches[id], s1.matches[id]),
        terminal_free(s0) ==> terminal_free(s1),
{
    match move_outcome(s0, sender, raw_id, mv, mv_bytes) {
        Some(_) => {},
        None => {
            let target = hex_decoded(raw_id);
            let m = s0.matches[target];
            let new_board = crate::engine::fen_after(m.board, mv);
            let new_state = crate::game::engine_state(new_board);
            assert forall|id: Seq<u8>|
                s0.matches.dom().contains(id) && #[trigger] s1.matches.dom().contains(id) implies
                lifecycle_advances(s0.matches[id], s1.matches[id]) by {
                if id != target {
                    assert(s1.matches[id] == s0.matches[id]);
                } else {
                    assert(new_state != MatchState::Won && new_state != MatchState::Drawn);
                    assert(turn_error(m, sender) is None);
                    assert(m.state is OnGoing);
                    assert(new_state is OnGoing);
                }
            }
            if terminal_free(s0) {
                assert forall|id: Seq<u8>| #[trigger] s1.matches.dom().contains(id) implies s1
                    .matches[id].state != MatchState::Won && s1.matches[id].state
                    != MatchState::Drawn by {
                    if id == target && !(new_state is Won) && !(new_state is Drawn) {
                        assert(new_state is OnGoing || new_state is AwaitingOpponent);
                    }
                }
            }
        },
    }
}

/// Adds the transfer of the whole pot — both stakes — to the winner.
fn transfer_pot_to_winner(msgs: &mut Vec<BankTransfer>, chess_match: &Match, winner: &String)
    requires
        chess_match@.bet.amount * 2 <= u128::MAX,
    ensures
        final(msgs)@.len() == old(msgs)@.len() + 1,
        forall|i: int| 0 <= i < old(msgs)@.len() ==> final(msgs)@[i] == old(msgs)@[i],
        final(msgs)@.last()@ == pot_transfer(winner@, chess_match@.bet),
{
    let pot = Coin { amount: chess_match.bet.amount * 2, denom: chess_match.bet.denom.clone() };
    let transfer = BankTransfer { to_address: winner.clone(), amount: vec![pot] };
    proof {
        assert(transfer@.amount =~= pot_transfer(winner@, chess_match@.bet).amount);
        assert(transfer@ =~~= pot_transfer(winner@, chess_match@.bet));
    }
    msgs.push(transfer);
}

/// Adds the refund of each side's original stake: the challenger's first,
/// then the opponent's.
fn refund_players(msgs: &mut Vec<BankTransfer>, chess_match: &Match)
    ensures
        final(msgs)@.len() == old(msgs)@.len() + 2,
        forall|i: int| 0 <= i < old(msgs)@.len() ==> final(msgs)@[i] == old(msgs)@[i],
        final(msgs)@[old(msgs)@.len() as int]@ == refund_transfers(chess_match@)[0],
        final(msgs)@.last()@ == refund_transfers(chess_match@)[1],
{
    let to_challenger = BankTransfer {
        to_address: chess_match.challenger.clone(),
        amount: vec![chess_match.bet.clone()],
    };
    let to_opponent = BankTransfer {
        to_address: chess_match.opponent.clone(),
        amount: vec![chess_match.bet.clone()],
    };
    proof {
        assert(to_challenger@.amount =~= refund_transfers(chess_match@)[0].amount);
        assert(to_challenger@ =~~= refund_transfers(chess_match@)[0]);
        assert(to_opponent@.amount =~= refund_transfers(chess_match@)[1].amount);
        assert(to_opponent@ =~~= refund_transfers(chess_match@)[1]);
    }
    msgs.push(to_challenger);
    msgs.push(to_opponent);
}

} // verus!

